use videoclub_core::catalog::MovieCatalog;
use videoclub_core::editing::{parse_year, record_subtitle, request_refetch, save_edit, year_text, EditForm};
use videoclub_core::library::{
    add_scan_directory, movie_summary, needs_enrichment, record_enrichment, remove_scan_directory,
};
use videoclub_core::metadata_store::{store_file, MetadataStore, StoredMetadata};
use videoclub_core::movie::MovieObject;

fn form(title: &str, year: &str, synopsis: &str, st: &str, sy: &str) -> EditForm {
    EditForm {
        title: title.to_string(),
        year: year.to_string(),
        synopsis: synopsis.to_string(),
        search_title: st.to_string(),
        search_year: sy.to_string(),
    }
}

#[test]
fn store_reads_back_what_was_written() {
    let mut store = MetadataStore::new("/tmp/lib.json".to_string());
    assert_eq!(store.len(), 0);
    let mut m = StoredMetadata::new_pending("Alien", Some(1979));
    m.title = Some("Alien".to_string());
    store.upsert("/m/a.mkv", m);
    assert_eq!(store.len(), 1);
    assert_eq!(store.get("/m/a.mkv").unwrap().title.as_deref(), Some("Alien"));
    assert!(store.get("/m/b.mkv").is_none());
    store.upsert("/m/a.mkv", StoredMetadata::new_pending("Other", None));
    assert_eq!(store.len(), 1);
    assert_eq!(store.get("/m/a.mkv").unwrap().search_title, "Other");
    assert_eq!(store.path(), "/tmp/lib.json");
}

#[test]
fn search_params_keep_metadata_and_clear_keeps_search() {
    let mut store = MetadataStore::new("/tmp/lib.json".to_string());
    let mut m = StoredMetadata::new_pending("Alien", Some(1979));
    m.title = Some("Alien".to_string());
    m.has_metadata = true;
    store.upsert("/m/a.mkv", m);
    store.set_search_params("/m/a.mkv", "Aliens", Some(1986));
    let r = store.get("/m/a.mkv").unwrap();
    assert_eq!(r.search_title, "Aliens");
    assert_eq!(r.title.as_deref(), Some("Alien"));
    assert!(r.has_metadata);
    store.clear_metadata("/m/a.mkv");
    let r = store.get("/m/a.mkv").unwrap();
    assert_eq!(r.search_title, "Aliens");
    assert_eq!(r.search_year, Some(1986));
    assert_eq!(r.title, None);
    assert!(!r.has_metadata);
    store.set_last_position("/m/a.mkv", Some(42));
    assert_eq!(store.get("/m/a.mkv").unwrap().last_position, Some(42));
    store.clear_metadata("/m/none.mkv");
    assert!(store.get("/m/none.mkv").is_none());
    store.clear_all();
    assert_eq!(store.len(), 0);
    assert_eq!(store_file(Some("/data".to_string())), "/data/library.json");
    assert_eq!(store_file(None), "/tmp/videoclub-library.json");
}

#[test]
fn saving_the_edit_form() {
    let mut store = MetadataStore::new("/tmp/lib.json".to_string());
    let mut old = StoredMetadata::new_pending("alien", Some(1979));
    old.genre = Some("Horror".to_string());
    old.subtitle_path = Some("/m/a.es.srt".to_string());
    store.upsert("/m/a.mkv", old);
    let mut movie = MovieObject::from_video_path("/m/a.mkv");
    movie.set_imdb_id("tt0078748");
    save_edit(&mut store, &mut movie, &form("Alien", "1979", "", "", "abc"));
    assert_eq!(movie.title(), "Alien");
    assert_eq!(movie.year(), 1979);
    assert!(movie.has_metadata());
    let r = store.get("/m/a.mkv").unwrap();
    assert_eq!(r.search_title, "alien");
    assert_eq!(r.search_year, Some(1979));
    assert_eq!(r.year, Some(1979));
    assert_eq!(r.synopsis, None);
    assert_eq!(r.imdb_id.as_deref(), Some("tt0078748"));
    assert_eq!(r.genre.as_deref(), Some("Horror"));
    assert_eq!(r.subtitle_path.as_deref(), Some("/m/a.es.srt"));

    let mut other = MovieObject::from_video_path("/m/b.mkv");
    save_edit(&mut store, &mut other, &form("B", "x", "Plot", "B search", "2001"));
    assert_eq!(other.year(), 0);
    let r = store.get("/m/b.mkv").unwrap();
    assert_eq!(r.search_title, "B search");
    assert_eq!(r.search_year, Some(2001));
    assert_eq!(r.year, None);
    assert_eq!(r.synopsis.as_deref(), Some("Plot"));
    assert_eq!(r.imdb_id, None);
}

#[test]
fn refetch_stores_new_search_and_drops_metadata() {
    let mut store = MetadataStore::new("/tmp/lib.json".to_string());
    let mut m = StoredMetadata::new_pending("x", None);
    m.has_metadata = true;
    m.title = Some("X".to_string());
    store.upsert("/m/x.mkv", m);
    let mut movie = MovieObject::from_video_path("/m/x.mkv");
    movie.set_has_metadata(true);
    request_refetch(&mut store, &mut movie, "Better", "1990");
    assert!(!movie.has_metadata());
    let r = store.get("/m/x.mkv").unwrap();
    assert_eq!(r.search_title, "Better");
    assert_eq!(r.search_year, Some(1990));
    assert_eq!(r.title, None);
}

#[test]
fn subtitle_outcome_is_recorded() {
    let mut store = MetadataStore::new("/tmp/lib.json".to_string());
    record_subtitle(&mut store, "/m/a.mkv", None, "A", 2000);
    assert!(store.get("/m/a.mkv").is_none());
    record_subtitle(&mut store, "/m/a.mkv", Some("/m/a.es.srt".to_string()), "A", 2000);
    let r = store.get("/m/a.mkv").unwrap();
    assert_eq!(r.search_title, "A");
    assert_eq!(r.search_year, Some(2000));
    assert_eq!(r.subtitle_path.as_deref(), Some("/m/a.es.srt"));
    record_subtitle(&mut store, "/m/a.mkv", None, "A", 2000);
    assert_eq!(store.get("/m/a.mkv").unwrap().subtitle_path, None);
}

#[test]
fn year_fields() {
    assert_eq!(parse_year("1999"), Some(1999));
    assert_eq!(parse_year("-5"), Some(-5));
    assert_eq!(parse_year(" 1999"), None);
    assert_eq!(parse_year(""), None);
    assert_eq!(year_text(2010), "2010");
    assert_eq!(year_text(0), "");
}

#[test]
fn enrichment_flow_in_the_window() {
    let mut pending = StoredMetadata::new_pending("a", None);
    assert!(needs_enrichment(Some(&pending), true));
    assert!(!needs_enrichment(Some(&pending), false));
    pending.has_metadata = true;
    assert!(!needs_enrichment(Some(&pending), true));
    assert!(needs_enrichment(None, true));

    let mut store = MetadataStore::new("/tmp/lib.json".to_string());
    let mut catalog = MovieCatalog::new();
    catalog.add_movie(&MovieObject::from_video_path("/m/a.mkv"));
    let mut result = StoredMetadata::new_pending("a", None);
    result.title = Some("Alpha".to_string());
    result.has_metadata = true;
    result.subtitle_path = Some("/m/a.es.srt".to_string());
    record_enrichment(&mut store, &mut catalog, "/m/a.mkv", result, false);
    let m = catalog.find_by_path("/m/a.mkv").unwrap();
    assert_eq!(m.title(), "Alpha");
    assert!(m.has_metadata());
    assert!(m.subtitles_ready());
    assert_eq!(store.get("/m/a.mkv").unwrap().title.as_deref(), Some("Alpha"));
}

#[test]
fn card_summary() {
    let mut m = MovieObject::from_video_path("/m/a.mkv");
    assert_eq!(movie_summary(&m), "");
    m.set_year(1999);
    m.set_rating("8.7");
    m.set_genre("Action, Sci-Fi");
    assert_eq!(movie_summary(&m), "1999 \u{2022} \u{2b50} 8.7 \u{2022} Action, Sci-Fi");
}

#[test]
fn scan_directory_list() {
    let mut dirs = vec!["/a".to_string()];
    add_scan_directory(&mut dirs, "/b");
    add_scan_directory(&mut dirs, "/a");
    assert_eq!(dirs, vec!["/a".to_string(), "/b".to_string()]);
    dirs.push("/a".to_string());
    remove_scan_directory(&mut dirs, "/a");
    assert_eq!(dirs, vec!["/b".to_string()]);
    remove_scan_directory(&mut dirs, "/zzz");
    assert_eq!(dirs, vec!["/b".to_string()]);
}
