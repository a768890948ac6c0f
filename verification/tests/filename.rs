use videoclub_core::filename::parse_movie_filename;

fn check(filename: &str, expected_title: &str, expected_year: Option<i32>) {
    let result = parse_movie_filename(filename);
    assert_eq!(result.title, expected_title, "Title mismatch for: {}", filename);
    assert_eq!(result.year, expected_year, "Year mismatch for: {}", filename);
}

#[test]
fn test_standard_patterns() {
    check("The.Matrix.1999.1080p.mkv", "The Matrix", Some(1999));
    check("Inception (2010).mp4", "Inception", Some(2010));
    check("Avatar.2009.720p.BrRip.x264.mp4", "Avatar", Some(2009));
}

#[test]
fn test_split_at_year() {
    check(
        "The.Dark.Knight.2008.REMASTERED.1080p.BluRay.x265.mkv",
        "The Dark Knight",
        Some(2008),
    );
    check(
        "Parasite.2019.KOREAN.1080p.BrRip.x264.YIFY.mkv",
        "Parasite",
        Some(2019),
    );
    check(
        "Spider-Man.No.Way.Home.2021.EXTENDED.2160p.WEB-DL.mkv",
        "Spider Man No Way Home",
        Some(2021),
    );
}

#[test]
fn test_leading_group_tags() {
    check(
        "[YTS.MX] The.Batman.2022.1080p.BluRay.mkv",
        "The Batman",
        Some(2022),
    );
}

#[test]
fn test_dash_separated() {
    check(
        "The-Grand-Budapest-Hotel-2014-1080p-BluRay.mkv",
        "The Grand Budapest Hotel",
        Some(2014),
    );
}

#[test]
fn test_no_year() {
    check("Some.Movie.1080p.mkv", "Some Movie", None);
}

#[test]
fn filename_without_extension_dot() {
    check("Heat", "Heat", None);
}

#[test]
fn filename_year_at_start_uses_whole_name() {
    // The title before the year is empty, so the whole cleaned name is used.
    check("1917.2019.mkv", "1917 2019", Some(1917));
}

#[test]
fn filename_year_out_of_range_is_not_a_year() {
    check("Blade.Runner.2049.mkv", "Blade Runner 2049", None);
}

#[test]
fn filename_quality_tags_case_insensitive() {
    check("Some.Movie.bluray.X264.ddp5.mkv", "Some Movie", None);
    check("Some_Movie_ddp5_1.mkv", "Some Movie 1", None);
}

#[test]
fn filename_directors_cut_removed() {
    check("Alien.Directors.Cut.mkv", "Alien", None);
}

#[test]
fn filename_brackets_and_empty_parens() {
    check("Movie [1080p] ( ) Name.avi", "Movie Name", None);
}

#[test]
fn filename_leading_group_too_long_is_kept() {
    check(
        "[abcdefghijklmnopqrstuvwxyz] Film.mkv",
        "Film",
        None,
    );
}

#[test]
fn filename_year_needs_word_boundary() {
    check("Movie1999.mkv", "Movie1999", None);
}

#[test]
fn years_outside_the_range_are_not_years() {
    check("Blade.Runner.2049.mkv", "Blade Runner 2049", None);
    check("Metropolis.1927.mkv", "Metropolis", Some(1927));
    check("Future.2030.mkv", "Future", Some(2030));
}

#[test]
fn only_the_parenthesis_before_the_year_goes() {
    check("Movie [2010].mkv", "Movie [", Some(2010));
    check("Inception (2010).mp4", "Inception", Some(2010));
}
