use videoclub_core::local_subtitles::{
    auto_selected, language_index, menu_label, preferred_candidates, resolve_subtitle_file,
    scan_subtitle_files, subtitle_candidates, LocalSubtitle, MenuLabel,
};
use videoclub_core::playback_view::{active_text, clock_text, delay_earlier, delay_later, idle_tick};
use videoclub_core::srt::SubtitleEntry;

fn local(path: &str, code: Option<&str>) -> LocalSubtitle {
    LocalSubtitle { path: path.to_string(), filename: path.rsplit('/').next().unwrap().to_string(), language_code: code.map(|c| c.to_string()) }
}

#[test]
fn clock() {
    assert_eq!(clock_text(0), "00:00");
    assert_eq!(clock_text(65), "01:05");
    assert_eq!(clock_text(6000), "100:00");
}

fn cue(start: u64, end: u64, text: &str) -> SubtitleEntry {
    SubtitleEntry { start_ms: start, end_ms: end, text: text.to_string() }
}

#[test]
fn active_cue_at_positions() {
    let cues = vec![cue(1000, 2000, "one"), cue(3000, 4000, "two")];
    assert_eq!(active_text(&cues, 1500, false), "one");
    assert_eq!(active_text(&cues, 2000, false), "one");
    assert_eq!(active_text(&cues, 2000, true), "");
    assert_eq!(active_text(&cues, 3000, false), "two");
    assert_eq!(active_text(&cues, 500, false), "");
    assert_eq!(active_text(&cues, 9000, false), "");
}

#[test]
fn delays_and_idle_ticks() {
    assert_eq!(delay_later(0), 100);
    assert_eq!(delay_earlier(0), -100);
    assert_eq!(idle_tick(3, false), (0, false));
    assert_eq!(idle_tick(5, true), (6, false));
    assert_eq!(idle_tick(6, true), (6, true));
}

#[test]
fn candidates_and_languages() {
    assert_eq!(language_index("es"), Some(0));
    assert_eq!(language_index("it"), Some(5));
    assert_eq!(language_index("ja"), None);
    let c = subtitle_candidates("/m", "Alien.1979", "Alien");
    assert_eq!(c.len(), 12);
    assert_eq!(c[0], ("/m/Alien.1979.es.srt".to_string(), "es".to_string()));
    assert_eq!(c[1], ("/m/Alien.es.srt".to_string(), "es".to_string()));
    assert_eq!(subtitle_candidates("/m", "x", "").len(), 6);
    assert_eq!(preferred_candidates("/m", "x", "X", "fr"), vec!["/m/x.fr.srt".to_string(), "/m/X.fr.srt".to_string()]);
}

#[test]
fn found_subtitle_files() {
    let c = subtitle_candidates("/m", "movie", "");
    let mut present = vec![false; c.len()];
    present[1] = true; // movie.en.srt
    let names = vec![
        "movie.en.srt".to_string(),
        "movie.srt".to_string(),
        "movie.pt-BR.srt".to_string(),
        "other.srt".to_string(),
        "movie.txt".to_string(),
    ];
    let found = scan_subtitle_files("/m", "movie", "", &present, &names);
    assert_eq!(found.len(), 3);
    assert_eq!(found[0].path, "/m/movie.en.srt");
    assert_eq!(found[0].language_code.as_deref(), Some("en"));
    assert_eq!(found[1].path, "/m/movie.srt");
    assert_eq!(found[1].language_code, None);
    assert_eq!(found[2].language_code.as_deref(), Some("pt-BR"));
}

#[test]
fn auto_selection_and_labels() {
    let files = vec![local("/m/a.en.srt", Some("en")), local("/m/a.es.srt", Some("es")), local("/m/a.srt", None)];
    assert_eq!(auto_selected(&files, "es"), Some(1));
    assert_eq!(auto_selected(&files, "de"), Some(0));
    assert_eq!(auto_selected(&files, ""), Some(0));
    assert_eq!(auto_selected(&vec![], "es"), None);
    assert!(matches!(menu_label(&files[1]), MenuLabel::Language(0)));
    match menu_label(&files[2]) {
        MenuLabel::FileName(n) => assert_eq!(n, "a.srt"),
        _ => panic!("expected the file name"),
    }
    match menu_label(&local("/m/a.xx.srt", Some("xx"))) {
        MenuLabel::FileName(n) => assert_eq!(n, "a.xx.srt"),
        _ => panic!("expected the file name"),
    }
}

#[test]
fn edit_dialog_subtitle_label() {
    let present = vec![false, true];
    let none: Vec<String> = vec![];
    assert_eq!(resolve_subtitle_file("/m", "a", "Alien", "es", &present, &none), Some("\u{2713} Alien.es.srt".to_string()));
    let names = vec!["b.srt".to_string(), "a.en.srt".to_string()];
    assert_eq!(resolve_subtitle_file("/m", "a", "", "es", &vec![false], &names), Some("\u{2713} a.en.srt".to_string()));
    assert_eq!(resolve_subtitle_file("/m", "a", "", "es", &vec![false], &none), None);
}

#[test]
fn exact_title_subtitle_has_no_code() {
    let names = vec!["Alien.srt".to_string(), "Alien.es.srt".to_string()];
    let found = scan_subtitle_files("/m", "a", "Alien", &vec![], &names);
    assert_eq!(found.len(), 2);
    assert_eq!(found[0].language_code, None);
    assert_eq!(found[1].language_code.as_deref(), Some("es"));
}
