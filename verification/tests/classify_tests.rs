use gem_finder::classify::{franchise_excluded, is_acclaimed, is_listed_gem, is_wildcard};

const YEAR_NOW: i32 = 2026;

#[test]
fn audience_canonized_classic_counts_without_critics() {
    assert!(is_acclaimed(true, Some(71), Some(1994), Some(2_300_000), None, YEAR_NOW));
}

#[test]
fn recent_hit_is_not_canonized() {
    assert!(!is_acclaimed(true, Some(70), Some(YEAR_NOW - 5), Some(1_000_000), None, YEAR_NOW));
}

#[test]
fn old_film_needs_the_vote_floor() {
    assert!(!is_acclaimed(true, Some(70), Some(1990), Some(100_000), None, YEAR_NOW));
}

#[test]
fn critic_certified_film_counts() {
    assert!(is_acclaimed(true, Some(99), Some(2019), Some(900_000), None, YEAR_NOW));
}

#[test]
fn imdb_floor_applies_to_both_branches() {
    assert!(!is_acclaimed(false, Some(70), Some(1995), Some(1_500_000), None, YEAR_NOW));
    assert!(!is_acclaimed(false, Some(99), Some(2019), Some(900_000), None, YEAR_NOW));
}

#[test]
fn franchises_are_left_out() {
    assert!(franchise_excluded(Some("superhero, Marvel Cinematic Universe")));
    assert!(franchise_excluded(Some("based on comic, spider-man")));
    assert!(!franchise_excluded(Some("spider-man, Spider-Verse")));
    assert!(franchise_excluded(Some("DEADPOOL")));
    assert!(!franchise_excluded(Some("batman, dark knight")));
    assert!(!franchise_excluded(None));
    assert!(!is_acclaimed(true, Some(95), Some(2019), Some(900_000), Some("avengers"), YEAR_NOW));
}

#[test]
fn gems_and_wildcards() {
    assert!(is_wildcard(true, Some(45)));
    assert!(!is_wildcard(true, Some(50)));
    assert!(!is_wildcard(true, None));
    assert!(!is_wildcard(false, Some(10)));
    assert!(is_listed_gem(true, None));
    assert!(is_listed_gem(true, Some(50)));
    assert!(!is_listed_gem(true, Some(49)));
    assert!(!is_listed_gem(false, None));
}
