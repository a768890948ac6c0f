use videoclub_core::omdb::OmdbResult;

fn empty_result() -> OmdbResult {
    OmdbResult {
        title: None,
        year: None,
        plot: None,
        poster: None,
        imdb_rating: None,
        imdb_id: None,
        genre: None,
        runtime: None,
        response: "True".to_string(),
        error: None,
    }
}

#[test]
fn test_cache_key_from_imdb_id() {
    let result = OmdbResult {
        title: None,
        year: None,
        plot: None,
        poster: None,
        imdb_rating: None,
        imdb_id: Some("tt0133093".to_string()),
        genre: None,
        runtime: None,
        response: "True".to_string(),
        error: None,
    };
    assert_eq!(result.cache_key(), 133093);
}

#[test]
fn test_poster_url_na() {
    let result = OmdbResult {
        title: None,
        year: None,
        plot: None,
        poster: Some("N/A".to_string()),
        imdb_rating: None,
        imdb_id: None,
        genre: None,
        runtime: None,
        response: "True".to_string(),
        error: None,
    };
    assert!(result.poster_url().is_none());
}

#[test]
fn test_year_i32() {
    let result = OmdbResult {
        title: None,
        year: Some("1999".to_string()),
        plot: None,
        poster: None,
        imdb_rating: None,
        imdb_id: None,
        genre: None,
        runtime: None,
        response: "True".to_string(),
        error: None,
    };
    assert_eq!(result.year_i32(), Some(1999));
}

#[test]
fn omdb_year_range_takes_first_year() {
    let mut r = empty_result();
    r.year = Some("1999\u{2013}2001".to_string());
    assert_eq!(r.year_i32(), Some(1999));
    r.year = Some(" 2005 ".to_string());
    assert_eq!(r.year_i32(), Some(2005));
    r.year = Some("N/A".to_string());
    assert_eq!(r.year_i32(), None);
    r.year = None;
    assert_eq!(r.year_i32(), None);
}

#[test]
fn omdb_cache_key_edge_cases() {
    let mut r = empty_result();
    assert_eq!(r.cache_key(), 0);
    r.imdb_id = Some("nm123".to_string());
    assert_eq!(r.cache_key(), 0);
    r.imdb_id = Some("tt+42".to_string());
    assert_eq!(r.cache_key(), 42);
    r.imdb_id = Some("tt99999999999999999999".to_string());
    assert_eq!(r.cache_key(), 0);
}

#[test]
fn omdb_poster_url_usable() {
    let mut r = empty_result();
    assert!(r.poster_url().is_none());
    r.poster = Some(String::new());
    assert!(r.poster_url().is_none());
    r.poster = Some("http://img/p.jpg".to_string());
    assert_eq!(r.poster_url(), Some("http://img/p.jpg"));
}

#[test]
fn omdb_is_found() {
    let mut r = empty_result();
    assert!(r.is_found());
    r.response = "False".to_string();
    assert!(!r.is_found());
}
