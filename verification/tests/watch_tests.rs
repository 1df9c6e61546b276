use gem_finder::watch::{
    append_watch, build_url, group_user_providers, ids_to_csv, list_url, parse_ids_csv,
    prefs_from_stored, provider_rows, rating_accepted, stored_ids, watch_query, UserProviders,
    watch_state_from, WatchPrefs, WatchQuery, WatchState,
};

fn prefs(region: &str, us: Vec<i32>, br: Vec<i32>, rentals: bool) -> WatchPrefs {
    WatchPrefs { region: region.to_string(), providers_us: us, providers_br: br, rentals }
}

#[test]
fn csv_parsing_skips_junk() {
    assert_eq!(parse_ids_csv("8, 337,x,,9"), vec![8, 337, 9]);
    assert_eq!(parse_ids_csv(""), Vec::<i32>::new());
    assert_eq!(ids_to_csv(&[8, 337, -2]), "8,337,-2");
}

#[test]
fn csv_round_trip() {
    let ids = vec![8, 337, 0, -5, i32::MAX, i32::MIN];
    assert_eq!(parse_ids_csv(&ids_to_csv(&ids)), ids);
}

#[test]
fn toggle_adds_then_removes() {
    let mut p = prefs("US", vec![8], vec![], false);
    p.toggle(337);
    assert_eq!(p.providers_us, vec![8, 337]);
    p.toggle(8);
    assert_eq!(p.providers_us, vec![337]);
    p.toggle(8);
    p.toggle(8);
    assert_eq!(p.providers_us, vec![337]);
}

#[test]
fn toggle_touches_active_region_only() {
    let mut p = prefs("BR", vec![8], vec![], false);
    p.toggle(8);
    assert_eq!(p.providers_br, vec![8]);
    assert_eq!(p.providers_us, vec![8]);
    assert_eq!(p.selected_csv(), "8");
    assert!(p.active());
    p.clear();
    assert!(p.providers_br.is_empty());
    assert_eq!(p.providers_us, vec![8]);
    assert!(!p.active());
}

#[test]
fn prefs_restore_from_storage() {
    let p = prefs_from_stored(None, "BR", Some("1,2".to_string()), None, Some("1".to_string()));
    assert_eq!(p.region, "BR");
    assert_eq!(p.providers_us, vec![1, 2]);
    assert!(p.providers_br.is_empty());
    assert!(p.rentals);
    let p = prefs_from_stored(Some("XX".to_string()), "BR", None, None, Some("0".to_string()));
    assert_eq!(p.region, "US");
    assert!(!p.rentals);
    assert_eq!(stored_ids(&vec![3, 4]), "3,4");
}

#[test]
fn watch_params_only_when_active() {
    let p = prefs("US", vec![], vec![], false);
    assert!(watch_query(&p).is_none());
    let p = prefs("BR", vec![], vec![8, 9], true);
    let q = watch_query(&p).unwrap();
    assert_eq!(q.region, "BR");
    assert_eq!(q.providers, "8,9");
    let mut url = String::from("/x?page=1");
    append_watch(&mut url, &Some(q));
    assert_eq!(url, "/x?page=1&region=BR&providers=8,9&rentals=1");
    let mut url = String::from("/x");
    append_watch(
        &mut url,
        &Some(WatchQuery { region: "US".to_string(), providers: String::new(), rentals: false }),
    );
    assert_eq!(url, "/x");
}

#[test]
fn page_url_layout() {
    let url = build_url(
        "/gems",
        2,
        &Some("Drama".to_string()),
        &Some(1990),
        &None,
        "score",
        "desc",
    );
    assert_eq!(url, "/gems?page=2&genres=Drama&year=1990&sort=score&sort_dir=desc");
}

#[test]
fn list_url_layout() {
    let url = list_url(
        "http://h",
        "/api/gems",
        1,
        20,
        &None,
        &None,
        &Some("fargo".to_string()),
        &None,
        &None,
        &None,
    );
    assert_eq!(url, "http://h/api/gems?page=1&per_page=20&q=fargo");
}

#[test]
fn user_provider_rows_round_trip() {
    let sel = UserProviders { us: vec![8, 9], br: vec![337] };
    let rows = provider_rows(&sel);
    assert_eq!(
        rows,
        vec![("US".to_string(), 8), ("US".to_string(), 9), ("BR".to_string(), 337)]
    );
    let back = group_user_providers(&rows);
    assert_eq!(back.us, vec![8, 9]);
    assert_eq!(back.br, vec![337]);
}

#[test]
fn other_regions_count_as_us() {
    let rows = vec![("CA".to_string(), 1), ("BR".to_string(), 2)];
    let g = group_user_providers(&rows);
    assert_eq!(g.us, vec![1]);
    assert_eq!(g.br, vec![2]);
}

#[test]
fn watchlist_rating_bounds() {
    assert!(rating_accepted(None));
    assert!(rating_accepted(Some(1)));
    assert!(rating_accepted(Some(10)));
    assert!(!rating_accepted(Some(0)));
    assert!(!rating_accepted(Some(11)));
}

#[test]
fn watch_state_names() {
    for s in [WatchState::WantToWatch, WatchState::Watched, WatchState::NotInterested] {
        assert_eq!(watch_state_from(s.as_str()), Some(s));
    }
    assert_eq!(WatchState::NotInterested.as_str(), "not_interested");
    assert_eq!(watch_state_from("maybe"), None);
}
