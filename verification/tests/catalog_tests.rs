use gem_finder::catalog::{
    filter_and_page, filter_and_page_folded, jump_target, page_count, pager_state, slot_fresh,
    toggle_genre, Cached, FoldedEntry, FoldedQuery, ListEntry, ListQuery, MovieCache, CACHE_TTL_MS,
};

fn entry(title: &str, year: Option<i32>, genre: Option<&str>, keywords: Option<&str>) -> ListEntry {
    ListEntry {
        title: title.to_string(),
        year,
        genre: genre.map(|g| g.to_string()),
        keywords: keywords.map(|k| k.to_string()),
    }
}

fn query(page: Option<i32>, per_page: Option<i32>) -> ListQuery {
    ListQuery { page, per_page, min_year: None, genres: None, q: None }
}

fn sample() -> Vec<ListEntry> {
    vec![
        entry("Sorcerer", Some(1977), Some("Drama, Thriller"), None),
        entry("The Hurt Locker", Some(2009), Some("Drama, Thriller, War"), None),
        entry("Dinner in America", Some(2020), Some("Comedy, Drama"), Some("punk")),
        entry("Mystery Film", None, None, Some("musical")),
    ]
}

#[test]
fn unfiltered_first_page() {
    let p = filter_and_page(&sample(), &query(None, None));
    assert_eq!(p.indices, vec![0, 1, 2, 3]);
    assert_eq!(p.total, 4);
    assert_eq!(p.page, 1);
    assert_eq!(p.per_page, 20);
}

#[test]
fn paging_and_clamping() {
    let p = filter_and_page(&sample(), &query(Some(2), Some(3)));
    assert_eq!(p.indices, vec![3]);
    assert_eq!(p.total, 4);
    let p = filter_and_page(&sample(), &query(Some(0), Some(0)));
    assert_eq!(p.page, 1);
    assert_eq!(p.per_page, 1);
    assert_eq!(p.indices, vec![0]);
    let p = filter_and_page(&sample(), &query(Some(1), Some(500)));
    assert_eq!(p.per_page, 100);
    let p = filter_and_page(&sample(), &query(Some(9), None));
    assert!(p.indices.is_empty());
    assert_eq!(p.total, 4);
}

#[test]
fn year_filter_drops_unknown_years() {
    let mut q = query(None, None);
    q.min_year = Some(2000);
    let p = filter_and_page(&sample(), &q);
    assert_eq!(p.indices, vec![1, 2]);
}

#[test]
fn genre_filter_reads_genres_and_keywords() {
    let mut q = query(None, None);
    q.genres = Some("war, Musical".to_string());
    let p = filter_and_page(&sample(), &q);
    assert_eq!(p.indices, vec![1, 3]);
    q.genres = Some(",".to_string());
    let p = filter_and_page(&sample(), &q);
    assert_eq!(p.total, 4);
}

#[test]
fn title_search_ignores_case() {
    let mut q = query(None, None);
    q.q = Some("HURT".to_string());
    let p = filter_and_page(&sample(), &q);
    assert_eq!(p.indices, vec![1]);
}

#[test]
fn page_counts() {
    assert_eq!(page_count(0, 20), 0);
    assert_eq!(page_count(1, 20), 1);
    assert_eq!(page_count(20, 20), 1);
    assert_eq!(page_count(21, 20), 2);
}

#[test]
fn pager_buttons() {
    let s = pager_state(1, 5);
    assert!(s.at_start && !s.at_end && s.shown);
    let s = pager_state(5, 5);
    assert!(!s.at_start && s.at_end);
    let s = pager_state(1, 1);
    assert!(!s.shown);
    assert!(pager_state(3, 0).at_end);
}

#[test]
fn typed_page_numbers() {
    assert_eq!(jump_target("4", 2, 10), 4);
    assert_eq!(jump_target("40", 2, 10), 10);
    assert_eq!(jump_target("-3", 2, 10), 1);
    assert_eq!(jump_target("abc", 2, 10), 2);
}

#[test]
fn list_cache_expiry() {
    let c = Cached::new(vec![1, 2, 3], 1000);
    assert_eq!(c.expires, 1000 + CACHE_TTL_MS);
    assert!(c.is_valid(1000 + CACHE_TTL_MS - 1));
    assert!(!c.is_valid(1000 + CACHE_TTL_MS));
    let mut cache: MovieCache<Vec<i32>> = MovieCache::new();
    assert!(!slot_fresh(&cache.gems, 0));
    cache.gems = Some(Cached::new(vec![1], 0));
    assert!(slot_fresh(&cache.gems, 10));
    cache.invalidate();
    assert!(cache.gems.is_none() && cache.acclaimed.is_none() && cache.wildcards.is_none());
}

#[test]
fn folded_filtering_takes_texts_as_given() {
    let folded = vec![
        FoldedEntry { title: "sorcerer".to_string(), year: Some(1977), genre: "drama, thriller".to_string(), keywords: String::new() },
        FoldedEntry { title: "The Hurt Locker".to_string(), year: Some(2009), genre: "War".to_string(), keywords: String::new() },
    ];
    let q = FoldedQuery { page: None, per_page: None, min_year: None, genres: Some(vec!["war".to_string()]), q: None };
    let p = filter_and_page_folded(&folded, &q);
    assert!(p.indices.is_empty());
    let q = FoldedQuery { page: None, per_page: None, min_year: None, genres: Some(vec!["thriller".to_string()]), q: Some("sorc".to_string()) };
    let p = filter_and_page_folded(&folded, &q);
    assert_eq!(p.indices, vec![0]);
    assert_eq!(p.total, 1);
}

#[test]
fn genre_toggle() {
    let mut sel = vec!["Drama".to_string(), "War".to_string()];
    toggle_genre(&mut sel, "War");
    assert_eq!(sel, vec!["Drama".to_string()]);
    toggle_genre(&mut sel, "Horror");
    assert_eq!(sel, vec!["Drama".to_string(), "Horror".to_string()]);
    toggle_genre(&mut sel, "Drama");
    assert_eq!(sel, vec!["Horror".to_string()]);
}
