use gem_finder::omdb::{
    enrich_outcome, extract_rt_scores, omdb_base, omdb_url, parse_vote_count, response_ok,
    rt_score, EnrichOutcome, OmdbRating,
};

fn rating(source: &str, value: &str) -> OmdbRating {
    OmdbRating { source: Some(source.to_string()), value: Some(value.to_string()) }
}

#[test]
fn request_url() {
    assert_eq!(omdb_url(&omdb_base(), "K", "tt1"), "https://www.omdbapi.com/?apikey=K&i=tt1");
}

#[test]
fn response_flag() {
    assert!(response_ok(Some("True")));
    assert!(!response_ok(Some("False")));
    assert!(!response_ok(None));
}

#[test]
fn vote_counts() {
    assert_eq!(parse_vote_count(Some("123,456")), Some(123456));
    assert_eq!(parse_vote_count(Some("0")), None);
    assert_eq!(parse_vote_count(Some("N/A")), None);
    assert_eq!(parse_vote_count(None), None);
}

#[test]
fn rotten_tomatoes_score() {
    let rs = vec![
        rating("Internet Movie Database", "7.5/10"),
        rating("Rotten Tomatoes", "85%"),
        rating("Metacritic", "76/100"),
    ];
    assert_eq!(rt_score(&rs), Some(85));
    assert_eq!(extract_rt_scores(Some(&rs)), (Some(85), None));
    assert_eq!(extract_rt_scores(None), (None, None));
    let later = vec![rating("Rotten Tomatoes", "85%"), rating("Rotten Tomatoes", "90%")];
    assert_eq!(rt_score(&later), Some(90));
    let bad = vec![rating("Rotten Tomatoes", "85%"), rating("Rotten Tomatoes", "N/A")];
    assert_eq!(rt_score(&bad), Some(85));
    let none = vec![OmdbRating { source: None, value: Some("85%".to_string()) }];
    assert_eq!(rt_score(&none), None);
}

#[test]
fn what_to_store() {
    assert_eq!(enrich_outcome(false, true, Some(1), None, None), EnrichOutcome::Rejected);
    assert_eq!(enrich_outcome(true, false, None, None, None), EnrichOutcome::NoNewData);
    assert_eq!(enrich_outcome(true, false, None, Some(80), None), EnrichOutcome::Update);
    assert_eq!(enrich_outcome(true, true, None, None, None), EnrichOutcome::Update);
}
