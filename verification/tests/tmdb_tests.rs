use gem_finder::tmdb::{
    acclaimed_discover_url, blockbuster_discover_url, blockbuster_year, configuration_url,
    director_of, find_url, gem_discover_url, image_base_url, join_names, keywords_field,
    movie_url, poster_url, release_year, search_url, stub_year, tmdb_api_base,
    watch_providers_url, CrewMember,
};

#[test]
fn request_urls() {
    let b = tmdb_api_base();
    assert_eq!(b, "https://api.themoviedb.org/3");
    assert_eq!(configuration_url(&b, "K"), "https://api.themoviedb.org/3/configuration?api_key=K");
    assert_eq!(
        gem_discover_url("B", "K", 1960, 1984, 2),
        "B/discover/movie?api_key=K&primary_release_date.gte=1960-01-01&primary_release_date.lte=1984-12-31&vote_average.gte=6.0&vote_average.lte=8.0&vote_count.gte=500&sort_by=vote_count.desc&page=2"
    );
    assert_eq!(
        blockbuster_discover_url("B", "K", 5),
        "B/discover/movie?api_key=K&sort_by=vote_count.desc&page=5"
    );
    assert_eq!(
        acclaimed_discover_url("B", "K", 1),
        "B/discover/movie?api_key=K&vote_average.gte=7.5&vote_count.gte=10000&sort_by=vote_average.desc&page=1"
    );
    assert_eq!(find_url("B", "tt0076740", "K"), "B/find/tt0076740?api_key=K&external_source=imdb_id");
    assert_eq!(
        search_url("B", "K", "The Hurt Locker", 2008),
        "B/search/movie?api_key=K&query=The+Hurt+Locker&year=2008&include_adult=false"
    );
    assert_eq!(movie_url("B", 680, "", "K"), "B/movie/680?api_key=K");
    assert_eq!(movie_url("B", 680, "/credits", "K"), "B/movie/680/credits?api_key=K");
    assert_eq!(watch_providers_url("B", 680, "K"), "B/movie/680/watch/providers?api_key=K");
}

#[test]
fn release_years() {
    assert_eq!(release_year(Some("1994-09-10")), Some(1994));
    assert_eq!(release_year(Some("1994")), Some(1994));
    assert_eq!(release_year(Some("")), None);
    assert_eq!(release_year(Some("-05")), None);
    assert_eq!(release_year(None), None);
    assert_eq!(blockbuster_year(Some("x-1")), 0);
    assert_eq!(blockbuster_year(Some("2015-04-24")), 2015);
    assert_eq!(stub_year(0), None);
    assert_eq!(stub_year(2015), Some(2015));
}

#[test]
fn director_is_first_with_the_job() {
    let crew = vec![
        CrewMember { job: "Writer".to_string(), name: "A".to_string() },
        CrewMember { job: "Director".to_string(), name: "William Friedkin".to_string() },
        CrewMember { job: "Director".to_string(), name: "B".to_string() },
    ];
    assert_eq!(director_of(&crew), Some("William Friedkin".to_string()));
    assert_eq!(director_of(&crew[..1].to_vec()), None);
}

#[test]
fn name_lists() {
    let names = vec!["Drama".to_string(), "Thriller".to_string()];
    assert_eq!(join_names(&names), "Drama, Thriller");
    assert_eq!(keywords_field(&names), Some("Drama, Thriller".to_string()));
    assert_eq!(keywords_field(&vec![]), None);
    assert_eq!(keywords_field(&vec![String::new()]), None);
}

#[test]
fn posters() {
    assert_eq!(image_base_url("https://image.tmdb.org/t/p/"), "https://image.tmdb.org/t/p/w500");
    assert_eq!(poster_url(Some("https://i/w500"), Some("/p.jpg")), Some("https://i/w500/p.jpg".to_string()));
    assert_eq!(poster_url(None, Some("/p.jpg")), None);
    assert_eq!(poster_url(Some("https://i/w500"), None), None);
}
