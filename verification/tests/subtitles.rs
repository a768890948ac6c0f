use videoclub_core::movie::MovieObject;
use videoclub_core::hash::VideoHash;
use videoclub_core::subtitles::{
    hash_query, map_results, name_query, subtitle_path_for, subtitle_query, SubtitleAction,
    SubtitleAttributes, SubtitleData, SubtitleFile, SubtitleResult, SubtitleSearch,
};

fn item(id: &str, name: Option<&str>, file_id: Option<u64>) -> SubtitleData {
    SubtitleData {
        id: id.to_string(),
        attributes: SubtitleAttributes {
            language: "es".to_string(),
            release: None,
            download_count: None,
            new_download_count: None,
            files: vec![SubtitleFile { file_name: name.map(|n| n.to_string()), file_id }],
        },
    }
}

#[test]
fn results_keep_items_with_a_file_id() {
    let data = vec![
        item("a", Some("The.Matrix.es.srt"), Some(456)),
        item("b", None, None),
        item("c", None, Some(7)),
    ];
    let r = map_results(&data);
    assert_eq!(r.len(), 2);
    assert_eq!(r[0].filename, "The.Matrix.es.srt");
    assert_eq!(r[0].download_url, "https://api.opensubtitles.com/api/v1/download/456");
    assert_eq!(r[1].id, "c");
    assert_eq!(r[1].filename, "subtitle_7.srt");
}

#[test]
fn queries() {
    let h = VideoHash { hash: "abc".to_string(), size: 1234 };
    let q = hash_query(&h, "es");
    assert_eq!(q, vec![
        ("moviehash".to_string(), "abc".to_string()),
        ("moviebytesize".to_string(), "1234".to_string()),
        ("languages".to_string(), "es".to_string()),
    ]);
    assert_eq!(name_query("Alien", "en", Some(1979)).len(), 3);
    assert_eq!(name_query("Alien", "en", None).len(), 2);
    assert_eq!(subtitle_query("", "/m/Alien.1979.mkv"), "Alien.1979");
    assert_eq!(subtitle_query("Alien", "/m/x.mkv"), "Alien");
    assert_eq!(subtitle_path_for("/m/Alien.mkv", "es"), "/m/Alien.es.srt");
}

fn result(url: &str) -> SubtitleResult {
    SubtitleResult { id: "1".to_string(), language: "es".to_string(), filename: "f.srt".to_string(), download_url: url.to_string() }
}

#[test]
fn search_falls_back_to_name_then_downloads_first() {
    let mut s = SubtitleSearch::new("/m/Alien.mkv", "Alien", 1979, "es");
    assert!(matches!(s.start(), SubtitleAction::ComputeHash));
    assert!(matches!(s.on_hash(true), SubtitleAction::SearchByHash));
    match s.on_results(&vec![]) {
        SubtitleAction::SearchByName { query, year } => {
            assert_eq!(query, "Alien");
            assert_eq!(year, Some(1979));
        }
        _ => panic!("expected a search by name"),
    }
    match s.on_results(&vec![result("u1"), result("u2")]) {
        SubtitleAction::Download { download_url, target } => {
            assert_eq!(download_url, "u1");
            assert_eq!(target, "/m/Alien.es.srt");
        }
        _ => panic!("expected a download"),
    }
    let mut movie = MovieObject::from_video_path("/m/Alien.mkv");
    assert!(!movie.subtitles_ready());
    match s.on_saved(&mut movie) {
        SubtitleAction::Finish(Some(p)) => assert_eq!(p, "/m/Alien.es.srt"),
        _ => panic!("expected the saved path"),
    }
    assert!(movie.subtitles_ready());
}

#[test]
fn search_without_file_or_results_finishes_empty() {
    let mut s = SubtitleSearch::new("", "Alien", 0, "es");
    assert!(matches!(s.start(), SubtitleAction::Finish(None)));
    let mut t = SubtitleSearch::new("/m/x.mkv", "", 0, "en");
    t.start();
    match t.on_hash(false) {
        SubtitleAction::SearchByName { query, year } => {
            assert_eq!(query, "x");
            assert_eq!(year, None);
        }
        _ => panic!("expected a search by name"),
    }
    assert!(matches!(t.on_results(&vec![]), SubtitleAction::Finish(None)));
}
