use gem_finder::scoring::{date_to_approx_days, days_fit, proximity_fits, GemScoreCalculator};

#[test]
fn approximate_day_counts() {
    assert_eq!(date_to_approx_days("1977-06-24"), Some(1977 * 365 + 6 * 30 + 24));
    assert_eq!(date_to_approx_days("1977"), Some(1977 * 365 + 30 + 1));
    assert_eq!(date_to_approx_days("1977-xx-05"), Some(1977 * 365 + 30 + 5));
    assert_eq!(date_to_approx_days("abcd-01-01"), None);
    assert_eq!(date_to_approx_days(""), None);
}

#[test]
fn obscured_by_nearby_blockbuster() {
    let calc = GemScoreCalculator::new();
    let hits = vec!["1977-05-25".to_string()];
    assert!(calc.obscured_by_big_hit(Some("1977-06-24"), &hits));
    let far = vec!["1976-06-25".to_string()];
    assert!(!calc.obscured_by_big_hit(Some("1977-06-24"), &far));
    assert!(!calc.obscured_by_big_hit(None, &hits));
    assert!(!calc.obscured_by_big_hit(Some(""), &hits));
    let near = vec!["1977-06-25".to_string()];
    assert!(calc.obscured_by_big_hit(Some("1977-06-24"), &near));
}

#[test]
fn gates() {
    let calc = GemScoreCalculator::new();
    assert_eq!(calc.effective_votes(Some(100), Some(8000)), 8000);
    assert_eq!(calc.effective_votes(None, None), 0);
    assert!(calc.passes_gates(Some(25000), None, Some(1977), Some(92), 2025));
    assert!(!calc.passes_gates(Some(100), None, Some(2000), None, 2025));
    assert!(!calc.passes_gates(Some(10000), None, Some(2015), Some(45), 2025));
    assert!(!calc.passes_gates(Some(10000), None, Some(2024), None, 2025));
}

#[test]
fn decay_age_window() {
    let calc = GemScoreCalculator::new();
    assert_eq!(calc.decay_age(Some(1965), 2025), Some(60));
    assert_eq!(calc.decay_age(Some(1950), 2025), None);
    assert_eq!(calc.decay_age(Some(2030), 2025), None);
    assert_eq!(calc.decay_age(None, 2025), None);
}

#[test]
fn genre_mentions() {
    let calc = GemScoreCalculator::new();
    assert!(calc.genre_mentions("Drama, Thriller", "Thriller"));
    assert!(!calc.genre_mentions("Drama", "Thriller"));
}

#[test]
fn day_count_range_checks() {
    assert!(days_fit("1977-06-24"));
    assert!(days_fit("not a date"));
    assert!(!days_fit("99999999999999999-01-01"));
    let hits = vec!["1977-05-25".to_string()];
    assert!(proximity_fits(Some("1977-06-24"), &hits));
    assert!(proximity_fits(None, &hits));
    assert!(!proximity_fits(Some("99999999999999999"), &hits));
    let early = vec!["0".to_string()];
    assert!(proximity_fits(Some("25000000000000000"), &early));
}
