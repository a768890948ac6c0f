use videoclub_core::movie::MovieObject;
use videoclub_core::sorting::{sort_action_name, sort_mode_for_action, MovieSorter, SortMode, SortOrder};

fn movie(title: &str, year: i32, has_metadata: bool) -> MovieObject {
    let mut m = MovieObject::from_video_path("/tmp/x.mkv");
    m.set_title(title);
    m.set_year(year);
    m.set_has_metadata(has_metadata);
    m
}

#[test]
fn movies_with_metadata_come_first() {
    let a = movie("Zulu", 1964, true);
    let b = movie("Alien", 1979, false);
    for mode in [SortMode::Unsorted, SortMode::TitleAsc, SortMode::TitleDesc, SortMode::YearAsc, SortMode::YearDesc] {
        let s = MovieSorter::new(mode);
        assert_eq!(s.compare(&a, &b), SortOrder::Smaller);
        assert_eq!(s.compare(&b, &a), SortOrder::Larger);
    }
}

#[test]
fn titles_compare_ignoring_case() {
    let a = movie("alien", 1979, true);
    let b = movie("Blade Runner", 1982, true);
    assert_eq!(MovieSorter::new(SortMode::TitleAsc).compare(&a, &b), SortOrder::Smaller);
    assert_eq!(MovieSorter::new(SortMode::TitleDesc).compare(&a, &b), SortOrder::Larger);
    let c = movie("ALIEN", 2000, true);
    assert_eq!(MovieSorter::new(SortMode::TitleAsc).compare(&a, &c), SortOrder::Equal);
}

#[test]
fn years_compare_both_ways() {
    let a = movie("A", 1999, true);
    let b = movie("B", 2010, true);
    assert_eq!(MovieSorter::new(SortMode::YearAsc).compare(&a, &b), SortOrder::Smaller);
    assert_eq!(MovieSorter::new(SortMode::YearDesc).compare(&a, &b), SortOrder::Larger);
    assert_eq!(MovieSorter::new(SortMode::Unsorted).compare(&a, &b), SortOrder::Equal);
}

#[test]
fn shorter_prefix_title_goes_first() {
    let a = movie("Alien", 1979, true);
    let b = movie("Aliens", 1986, true);
    assert_eq!(MovieSorter::new(SortMode::TitleAsc).compare(&a, &b), SortOrder::Smaller);
}

#[test]
fn action_names_round_trip() {
    for mode in [SortMode::Unsorted, SortMode::TitleAsc, SortMode::TitleDesc, SortMode::YearAsc, SortMode::YearDesc] {
        assert_eq!(sort_mode_for_action(sort_action_name(mode)), Some(mode));
    }
    assert_eq!(sort_action_name(SortMode::TitleAsc), "title-asc");
    assert_eq!(sort_mode_for_action("shuffle"), None);
    assert_eq!(SortMode::default(), SortMode::Unsorted);
}
