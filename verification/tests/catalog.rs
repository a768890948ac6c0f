use videoclub_core::catalog::MovieCatalog;
use videoclub_core::movie::MovieObject;

fn create_test_movie(path: &str) -> MovieObject {
    MovieObject::from_video_path(path)
}

#[test]
fn test_create_movie_object() {
    let movie = MovieObject::from_video_path("/home/user/movies/The Matrix.mp4");
    assert_eq!(movie.title(), "The Matrix");
    assert_eq!(movie.video_path(), "/home/user/movies/The Matrix.mp4");
    assert_eq!(movie.year(), 0);
    assert!(!movie.has_metadata());
    assert!(!movie.subtitles_ready());
}

#[test]
fn test_property_get_set() {
    let mut movie = MovieObject::from_video_path("/tmp/test.mkv");
    movie.set_title("Inception");
    movie.set_year(2010);
    movie.set_synopsis("A mind-bending thriller.");

    assert_eq!(movie.title(), "Inception");
    assert_eq!(movie.year(), 2010);
    assert_eq!(movie.synopsis(), "A mind-bending thriller.");
    assert!(!movie.has_metadata());
}

#[test]
fn test_add_and_find() {
    let mut catalog = MovieCatalog::new();
    assert_eq!(catalog.len(), 0);
    assert!(catalog.is_empty());

    let movie1 = create_test_movie("/tmp/movie1.mkv");
    let movie2 = create_test_movie("/tmp/movie2.mp4");

    catalog.add_movie(&movie1);
    catalog.add_movie(&movie2);

    assert_eq!(catalog.len(), 2);

    let found = catalog.find_by_path("/tmp/movie1.mkv");
    assert!(found.is_some());
    assert_eq!(found.unwrap().title(), "movie1");
}

#[test]
fn test_find_not_found() {
    let catalog = MovieCatalog::new();
    let result = catalog.find_by_path("/nonexistent/file.avi");
    assert!(result.is_none());
}

#[test]
fn test_remove_movie() {
    let mut catalog = MovieCatalog::new();
    let movie = create_test_movie("/tmp/to_remove.mkv");
    catalog.add_movie(&movie);
    assert_eq!(catalog.len(), 1);

    catalog.remove_movie(0);
    assert_eq!(catalog.len(), 0);
}

#[test]
fn test_clear() {
    let mut catalog = MovieCatalog::new();
    catalog.add_movie(&create_test_movie("/tmp/a.mkv"));
    catalog.add_movie(&create_test_movie("/tmp/b.mkv"));
    catalog.add_movie(&create_test_movie("/tmp/c.mkv"));
    assert_eq!(catalog.len(), 3);

    catalog.clear();
    assert_eq!(catalog.len(), 0);
}

#[test]
fn remove_past_the_end_removes_nothing() {
    let mut catalog = MovieCatalog::new();
    catalog.add_movie(&create_test_movie("/tmp/a.mkv"));
    catalog.remove_movie(5);
    assert_eq!(catalog.len(), 1);
}

#[test]
fn find_returns_first_movie_with_the_path() {
    let mut catalog = MovieCatalog::new();
    let mut first = create_test_movie("/tmp/same.mkv");
    first.set_title("First");
    let mut second = create_test_movie("/tmp/same.mkv");
    second.set_title("Second");
    catalog.add_movie(&first);
    catalog.add_movie(&second);
    assert_eq!(catalog.find_by_path("/tmp/same.mkv").unwrap().title(), "First");
    assert_eq!(catalog.position_of("/tmp/same.mkv"), Some(0));
    assert_eq!(catalog.position_of("/tmp/other.mkv"), None);
}

#[test]
fn title_from_path_without_file_name_is_unknown() {
    let movie = MovieObject::from_video_path("/");
    assert_eq!(movie.title(), "Unknown");
    let dotted = MovieObject::from_video_path("/films/.hidden");
    assert_eq!(dotted.title(), ".hidden");
    let double = MovieObject::from_video_path("/films/Alien.1979.mkv");
    assert_eq!(double.title(), "Alien.1979");
}

#[test]
fn setters_change_one_field() {
    let mut movie = MovieObject::from_video_path("/tmp/x.mkv");
    movie.set_rating("8.8");
    movie.set_genre("Drama");
    movie.set_runtime("120 min");
    movie.set_imdb_id("tt1");
    movie.set_poster_path("/p.jpg");
    movie.set_file_hash("abc");
    movie.set_subtitles_ready(true);
    movie.set_has_metadata(true);
    assert_eq!(movie.rating(), "8.8");
    assert_eq!(movie.genre(), "Drama");
    assert_eq!(movie.runtime(), "120 min");
    assert_eq!(movie.imdb_id(), "tt1");
    assert_eq!(movie.poster_path(), "/p.jpg");
    assert_eq!(movie.file_hash(), "abc");
    assert!(movie.subtitles_ready());
    assert!(movie.has_metadata());
    assert_eq!(movie.title(), "x");
    assert_eq!(movie.video_path(), "/tmp/x.mkv");
}
