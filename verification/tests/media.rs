use videoclub_core::player::{inhibits_screensaver, PlaybackCommand};
use videoclub_core::strings::lines_exec;
use videoclub_core::cache::{is_expired, PosterCache};
use videoclub_core::hash::{opensubtitles_hash, reads_tail, tail_start, CHUNK_SIZE};
use videoclub_core::scanner::{is_video_file_path, scan_directory, Scanner, WalkEntry};
use videoclub_core::srt::{decode_srt_bytes, parse_srt, parse_srt_time, srt_times_fit};
use videoclub_core::tmdb::{choose_poster_size, movie_details_url, tmdb_search_query, TmdbImageSettings};

fn entry(path: &str, name: &str, is_file: bool) -> WalkEntry {
    WalkEntry { path: path.to_string(), file_name: name.to_string(), is_file }
}

#[test]
fn scanner_keeps_only_video_files() {
    let entries = vec![
        entry("/m/movie1.mp4", "movie1.mp4", true),
        entry("/m/movie2.MKV", "movie2.MKV", true),
        entry("/m/readme.txt", "readme.txt", true),
        entry("/m/folder.avi", "folder.avi", false),
        entry("/m/poster.jpg", "poster.jpg", true),
        entry("/m/clip.webm", "clip.webm", true),
    ];
    let found = scan_directory("/m", &entries);
    assert_eq!(found, vec!["/m/movie1.mp4".to_string(), "/m/movie2.MKV".to_string(), "/m/clip.webm".to_string()]);
    let scanner = Scanner::new(vec!["/m".to_string()]);
    let results = scanner.scan_entries(&entries);
    assert_eq!(results.len(), 3);
    assert_eq!(results[1].extension, "mkv");
    assert_eq!(results[1].filename, "movie2.MKV");
    assert_eq!(scanner.directory_list(), &vec!["/m".to_string()]);
}

#[test]
fn video_extensions() {
    for p in ["a.mp4", "a.mkv", "a.avi", "a.mov", "a.webm", "a.m4v", "a.wmv", "a.MoV"] {
        assert!(is_video_file_path(p), "{}", p);
    }
    for p in ["a.srt", "a", ".mkv", "a.mp4.txt"] {
        assert!(!is_video_file_path(p), "{}", p);
    }
}

#[test]
fn hash_is_sha256_of_both_chunks() {
    let h = opensubtitles_hash(b"ab", b"c", 3);
    assert_eq!(h.hash, "ba7816bf8f01cfea414140de5dae2223b00361a396177a9cb410ff61f20015ad");
    assert_eq!(h.hash.len(), 64);
    assert_eq!(h.size, 3);
}

#[test]
fn tail_is_read_only_for_large_files() {
    assert_eq!(CHUNK_SIZE, 65536);
    assert_eq!(tail_start(100), 0);
    assert!(!reads_tail(65536));
    assert_eq!(tail_start(65537), 1);
    assert!(reads_tail(65537));
}

#[test]
fn poster_cache_paths() {
    let cache = PosterCache::with_root(Some("/home/u/.cache/videoclub".to_string()));
    assert_eq!(cache.cache_dir(), "/home/u/.cache/videoclub/posters");
    assert_eq!(cache.poster_path(133093), "/home/u/.cache/videoclub/posters/133093.jpg");
    let fallback = PosterCache::with_root(None);
    assert_eq!(fallback.cache_dir(), "/tmp/videoclub-cache/posters");
    assert_eq!(fallback.get_cached(99999999), None);
}

#[test]
fn cache_expiry_is_strictly_older() {
    assert!(is_expired(31, 0, 30, 0));
    assert!(!is_expired(30, 0, 30, 0));
    assert!(is_expired(30, 1, 30, 0));
    assert!(!is_expired(29, 999, 30, 0));
}

#[test]
fn srt_time_and_cues() {
    assert_eq!(parse_srt_time("00:01:02,500"), 62500);
    assert_eq!(parse_srt_time("01:00:00.000"), 3600000);
    assert_eq!(parse_srt_time("garbage"), 0);
    let text = "1\r\n00:00:01,000 --> 00:00:02,500\r\nHello <font color=\"red\">world</font>\r\n\r\n2\r\n00:00:03,000 --> 00:00:04,000\r\nSecond\r\nline\r\n";
    assert!(srt_times_fit(text));
    let cues = parse_srt(text);
    assert_eq!(cues.len(), 2);
    assert_eq!(cues[0].start_ms, 1000);
    assert_eq!(cues[0].end_ms, 2500);
    assert_eq!(cues[1].text, "Second\nline");
}

#[test]
fn srt_bytes_fall_back_to_latin1() {
    assert_eq!(decode_srt_bytes("ñandú".as_bytes()), "ñandú");
    assert_eq!(decode_srt_bytes(&[0x61, 0xF1, 0x62]), "añb");
}

#[test]
fn tmdb_requests() {
    assert_eq!(choose_poster_size(&vec!["w92".to_string(), "w342".to_string(), "w500".to_string()]), "w342");
    assert_eq!(choose_poster_size(&vec!["w92".to_string(), "w500".to_string()]), "w500");
    assert_eq!(choose_poster_size(&vec!["w92".to_string(), "w154".to_string()]), "w154");
    assert_eq!(choose_poster_size(&vec![]), "original");
    let s = TmdbImageSettings { image_base_url: "https://image.tmdb.org/t/p/".to_string(), poster_size: "w342".to_string() };
    assert_eq!(s.poster_url("/abc.jpg"), "https://image.tmdb.org/t/p/w342/abc.jpg");
    assert_eq!(movie_details_url(603), "https://api.themoviedb.org/3/movie/603");
    let q = tmdb_search_query("k", "Matrix", Some(1999));
    assert_eq!(q.len(), 4);
    assert_eq!(q[3], ("year".to_string(), "1999".to_string()));
    assert_eq!(tmdb_search_query("k", "Matrix", None).len(), 3);
}

#[test]
fn cached_poster_follows_presence() {
    let cache = PosterCache::with_root(Some("/c".to_string()));
    assert_eq!(cache.cached_poster(7, true), Some("/c/posters/7.jpg".to_string()));
    assert_eq!(cache.cached_poster(7, false), None);
}

#[test]
fn final_bare_carriage_return_stays() {
    let r = lines_exec(&['a', '\r', '\n', 'b', 'a', 'z', '\r']);
    assert_eq!(r, vec![vec!['a'], vec!['b', 'a', 'z', '\r']]);
    let cues = parse_srt("1\r\n00:00:01,000 --> 00:00:02,500\r\nHi\r");
    assert_eq!(cues.len(), 1);
    assert_eq!(cues[0].text, "Hi\r");
    let end = parse_srt("1\n00:00:01,000 --> 00:00:02,500\r");
    assert_eq!(end[0].end_ms, 2500);
}

#[test]
fn only_playing_inhibits() {
    assert!(inhibits_screensaver(PlaybackCommand::Play));
    assert!(!inhibits_screensaver(PlaybackCommand::Pause));
    assert!(!inhibits_screensaver(PlaybackCommand::Stop));
    assert_eq!(videoclub_core::cache::POSTER_MAX_AGE_SECS, 90 * 24 * 3600);
}

#[test]
fn distinct_keys_distinct_files() {
    let cache = PosterCache::with_root(Some("/c".to_string()));
    assert_ne!(cache.poster_path(1), cache.poster_path(10));
    assert_ne!(cache.poster_path(12), cache.poster_path(21));
}
