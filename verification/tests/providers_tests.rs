use gem_finder::providers::{
    build_rows, group_by_region, link_to_keep, regions, watch_page_link, MovieProvider,
    TmdbProvider, TmdbRegionProviders,
};

fn p(id: i32, name: &str) -> TmdbProvider {
    TmdbProvider { provider_id: id, provider_name: name.to_string(), logo_path: Some(format!("/{}.png", id)) }
}

fn region(link: Option<&str>) -> TmdbRegionProviders {
    TmdbRegionProviders {
        link: link.map(|l| l.to_string()),
        flatrate: vec![p(8, "Netflix")],
        free: vec![],
        ads: vec![p(73, "Tubi")],
        rent: vec![p(2, "Apple TV")],
        buy: vec![p(2, "Apple TV"), p(3, "Google Play")],
    }
}

#[test]
fn rows_follow_tier_order() {
    let rows = build_rows(&region(None));
    let tiers: Vec<(i32, &str)> = rows.iter().map(|r| (r.0, r.3.as_str())).collect();
    assert_eq!(
        tiers,
        vec![(8, "flatrate"), (73, "ads"), (2, "rent"), (2, "buy"), (3, "buy")]
    );
    assert_eq!(rows[0].1, "Netflix");
    assert_eq!(rows[0].2.as_deref(), Some("/8.png"));
}

#[test]
fn link_of_first_region_that_has_one() {
    assert_eq!(regions(), vec!["US", "BR"]);
    let rs = vec![None, Some(region(Some("https://br"))), Some(region(Some("https://x")))];
    assert_eq!(link_to_keep(&rs), Some("https://br".to_string()));
    let rs = vec![Some(region(None)), None];
    assert_eq!(link_to_keep(&rs), None);
}

#[test]
fn watch_pages() {
    assert_eq!(watch_page_link(680, "BR"), "https://www.themoviedb.org/movie/680/watch?locale=BR");
}

fn mp(id: i32, access: &str) -> MovieProvider {
    MovieProvider { provider_id: id, provider_name: format!("P{}", id), logo_path: None, access: access.to_string() }
}

#[test]
fn grouping_keeps_first_appearance_order() {
    let rows = vec![
        ("US".to_string(), mp(8, "flatrate")),
        ("BR".to_string(), mp(337, "flatrate")),
        ("US".to_string(), mp(2, "rent")),
    ];
    let groups = group_by_region(&rows, 680);
    assert_eq!(groups.len(), 2);
    assert_eq!(groups[0].region, "US");
    assert_eq!(
        groups[0].providers.iter().map(|p| p.provider_id).collect::<Vec<_>>(),
        vec![8, 2]
    );
    assert_eq!(groups[1].region, "BR");
    assert_eq!(groups[1].providers.len(), 1);
    assert_eq!(
        groups[1].tmdb_link.as_deref(),
        Some("https://www.themoviedb.org/movie/680/watch?locale=BR")
    );
    assert!(group_by_region(&vec![], 1).is_empty());
}
