use videoclub_core::enricher::{
    apply_omdb_result, apply_stored_to_movie, enriched_metadata, limited_year, search_params,
    poster_request, record_poster, LookupStep, OmdbLookup,
};
use videoclub_core::metadata_store::StoredMetadata;
use videoclub_core::movie::MovieObject;
use videoclub_core::omdb::{found_movie, omdb_query, OmdbResult};

fn answer() -> OmdbResult {
    OmdbResult {
        title: Some("The Matrix".to_string()),
        year: Some("1999".to_string()),
        plot: Some("N/A".to_string()),
        poster: Some("https://x/p.jpg".to_string()),
        imdb_rating: Some("8.7".to_string()),
        imdb_id: Some("tt0133093".to_string()),
        genre: Some("N/A".to_string()),
        runtime: Some("136 min".to_string()),
        response: "True".to_string(),
        error: None,
    }
}

#[test]
fn search_params_come_from_the_file_name_or_the_record() {
    let (t, y) = search_params(None, "/movies/The.Matrix.1999.1080p.mkv");
    assert_eq!(t, "The Matrix");
    assert_eq!(y, Some(1999));
    let stored = StoredMetadata::new_pending("Matrix Reloaded", Some(2003));
    let (t, y) = search_params(Some(&stored), "/movies/The.Matrix.1999.1080p.mkv");
    assert_eq!(t, "Matrix Reloaded");
    assert_eq!(y, Some(2003));
}

#[test]
fn lookup_retries_once_without_year() {
    let (mut lookup, t, y) = OmdbLookup::start("Parasite", Some(2019));
    assert_eq!((t.as_str(), y), ("Parasite", Some(2019)));
    match lookup.on_answer(false) {
        LookupStep::Query { title, year } => {
            assert_eq!(title, "Parasite");
            assert_eq!(year, None);
        }
        _ => panic!("expected a second query"),
    }
    match lookup.on_answer(false) {
        LookupStep::Pending(m) => {
            assert_eq!(m.search_title, "Parasite");
            assert_eq!(m.search_year, Some(2019));
            assert!(!m.has_metadata);
        }
        _ => panic!("expected a pending record"),
    }
}

#[test]
fn lookup_without_year_gives_up_at_once() {
    let (mut lookup, _, _) = OmdbLookup::start("Nothing", None);
    assert!(matches!(lookup.on_answer(false), LookupStep::Pending(_)));
    let (mut found, _, _) = OmdbLookup::start("Alien", Some(1979));
    assert!(matches!(found.on_answer(true), LookupStep::Use));
}

#[test]
fn omdb_answer_fills_the_movie_except_na_fields() {
    let mut movie = MovieObject::from_video_path("/m/The.Matrix.1999.mkv");
    movie.set_genre("Old genre");
    apply_omdb_result(&mut movie, &answer());
    assert_eq!(movie.title(), "The Matrix");
    assert_eq!(movie.year(), 1999);
    assert_eq!(movie.synopsis(), "");
    assert_eq!(movie.rating(), "8.7");
    assert_eq!(movie.genre(), "Old genre");
    assert_eq!(movie.runtime(), "136 min");
    assert_eq!(movie.imdb_id(), "tt0133093");
    assert!(movie.has_metadata());

    let record = enriched_metadata("The Matrix", Some(1999), &movie, Some("/c/133093.jpg".to_string()));
    assert_eq!(record.title.as_deref(), Some("The Matrix"));
    assert_eq!(record.year, Some(1999));
    assert_eq!(record.synopsis, None);
    assert_eq!(record.genre.as_deref(), Some("Old genre"));
    assert_eq!(record.poster_path.as_deref(), Some("/c/133093.jpg"));
    assert!(record.has_metadata);
    assert_eq!(record.subtitle_path, None);
}

#[test]
fn stored_record_applies_to_movie() {
    let mut movie = MovieObject::from_video_path("/m/x.mkv");
    let mut stored = StoredMetadata::new_pending("x", None);
    stored.title = Some("Real Title".to_string());
    stored.year = Some(2001);
    stored.has_metadata = true;
    stored.subtitle_path = Some("/m/x.es.srt".to_string());
    apply_stored_to_movie(&mut movie, &stored, false);
    assert_eq!(movie.title(), "Real Title");
    assert_eq!(movie.year(), 2001);
    assert!(movie.has_metadata());
    assert!(!movie.subtitles_ready());
    apply_stored_to_movie(&mut movie, &stored, true);
    assert!(movie.subtitles_ready());
}

#[test]
fn omdb_query_and_outcome() {
    let q = omdb_query("KEY", "Alien", Some(1979));
    assert_eq!(q.len(), 5);
    assert_eq!(q[0], ("apikey".to_string(), "KEY".to_string()));
    assert_eq!(q[4], ("y".to_string(), "1979".to_string()));
    assert_eq!(omdb_query("KEY", "Alien", None).len(), 4);
    assert!(found_movie(answer()).is_some());
    let mut missing = answer();
    missing.response = "False".to_string();
    assert!(found_movie(missing).is_none());
    assert_eq!(limited_year(0), None);
    assert_eq!(limited_year(-3), None);
    assert_eq!(limited_year(1999), Some(1999));
}

#[test]
fn poster_step() {
    assert_eq!(poster_request(&answer()), Some((133093, "https://x/p.jpg".to_string())));
    let mut no_poster = answer();
    no_poster.poster = Some("N/A".to_string());
    assert_eq!(poster_request(&no_poster), None);
    let mut movie = MovieObject::from_video_path("/m/x.mkv");
    assert_eq!(record_poster(&mut movie, None), None);
    assert_eq!(movie.poster_path(), "");
    assert_eq!(record_poster(&mut movie, Some("/c/1.jpg".to_string())), Some("/c/1.jpg".to_string()));
    assert_eq!(movie.poster_path(), "/c/1.jpg");
}
