//! The decisions of metadata enrichment: what to ask OMDb, what to do with
//! its answer, and what to keep of it. Sending the requests and downloading
//! posters is the caller's part; it hands each answer back here.

use vstd::prelude::*;
use crate::filename::{filename_title_year, parse_movie_filename};
use crate::metadata_store::{opt_view, MetadataView, StoredMetadata};
use crate::movie::{MovieObject, MovieView};
use crate::omdb::{imdb_cache_key, omdb_year, usable_poster, OmdbResult};
use crate::paths::{file_name, file_name_exec};
use crate::text::{chars_of, str_equal, string_of};

verus! {

/// A year that is known: positive.
pub open spec fn known_year(year: i32) -> Option<i32> {
    if year > 0 {
        Some(year)
    } else {
        None
    }
}

/// The year of a movie as a search filter: `None` when it is not known.
pub fn limited_year(year: i32) -> (r: Option<i32>)
    ensures
        r == known_year(year),
{
    if year > 0 {
        Some(year)
    } else {
        None
    }
}

/// The search parameters for a movie: those of its record when it has one,
/// otherwise title and year parsed from its file name (`Unknown` when the
/// path has no file name).
pub open spec fn search_params_for(stored: Option<MetadataView>, video_path: Seq<char>) -> (
    Seq<char>,
    Option<i32>,
) {
    match stored {
        Some(m) => (m.search_title, m.search_year),
        None => filename_title_year(
            match file_name(video_path) {
                Some(n) => n,
                None => "Unknown"@,
            },
        ),
    }
}

/// Title and year to search OMDb with.
pub fn search_params(stored: Option<&StoredMetadata>, video_path: &str) -> (r: (String, Option<i32>))
    ensures
        (r.0@, r.1) == search_params_for(
            match stored {
                Some(m) => Some(m@),
                None => None,
            },
            video_path@,
        ),
{
    match stored {
        Some(m) => (m.search_title.clone(), m.search_year),
        None => {
            let name = match file_name_exec(&chars_of(video_path)) {
                Some(n) => string_of(&n),
                None => "Unknown".to_owned(),
            };
            proof {
                reveal_strlit("Unknown");
            }
            let parsed = parse_movie_filename(name.as_str());
            (parsed.title, parsed.year)
        },
    }
}

/// Where an OMDb lookup stands.
#[derive(Debug, Clone, Copy, PartialEq, Eq, Structural)]
pub enum LookupStage {
    /// The query with the year (or the only query, without one) is out.
    First,
    /// The query without the year is out.
    Retry,
    /// The lookup is over.
    Over,
}

/// What the caller does next in an OMDb lookup.
pub enum LookupStep {
    /// Send this query.
    Query { title: String, year: Option<i32> },
    /// Use the answer just received.
    Use,
    /// Nothing was found: keep a record with the search parameters only.
    Pending(StoredMetadata),
}

/// An OMDb lookup: first with the year, then, when that finds nothing and
/// there was a year, once more without it (the title search of OMDb is
/// strict about the year).
pub struct OmdbLookup {
    title: String,
    year: Option<i32>,
    stage: LookupStage,
}

impl OmdbLookup {
    pub closed spec fn title(&self) -> Seq<char> {
        self.title@
    }

    pub closed spec fn year(&self) -> Option<i32> {
        self.year
    }

    pub closed spec fn stage(&self) -> LookupStage {
        self.stage
    }

    /// Starts a lookup; the first query is `(title, year)`.
    pub fn start(title: &str, year: Option<i32>) -> (r: (OmdbLookup, String, Option<i32>))
        ensures
            r.0.title() == title@,
            r.0.year() == year,
            r.0.stage() == LookupStage::First,
            r.1@ == title@,
            r.2 == year,
    {
        (OmdbLookup { title: title.to_owned(), year, stage: LookupStage::First }, title.to_owned(), year)
    }

    /// The answer to the query that was out: `found` when OMDb found the
    /// movie.
    pub fn on_answer(&mut self, found: bool) -> (step: LookupStep)
        requires
            old(self).stage() != LookupStage::Over,
        ensures
            final(self).title() == old(self).title(),
            final(self).year() == old(self).year(),
            found ==> step is Use && final(self).stage() == LookupStage::Over,
            !found && old(self).stage() == LookupStage::First && old(self).year() is Some ==> (
            step matches LookupStep::Query { title, year } && title@ == old(self).title()
                && year is None && final(self).stage() == LookupStage::Retry),
            !found && (old(self).stage() == LookupStage::Retry || old(self).year() is None) ==> (
            step matches LookupStep::Pending(m) && m@ == crate::metadata_store::pending(
                old(self).title(),
                old(self).year(),
            ) && final(self).stage() == LookupStage::Over),
    {
        if found {
            self.stage = LookupStage::Over;
            LookupStep::Use
        } else if self.stage == LookupStage::First && self.year.is_some() {
            self.stage = LookupStage::Retry;
            LookupStep::Query { title: self.title.clone(), year: None }
        } else {
            self.stage = LookupStage::Over;
            LookupStep::Pending(StoredMetadata::new_pending(self.title.as_str(), self.year))
        }
    }
}

/// A text field of OMDb that holds a value: present and not `"N/A"`.
pub open spec fn given(o: Option<String>) -> Option<Seq<char>> {
    match o {
        Some(s) => if s@ != "N/A"@ {
            Some(s@)
        } else {
            None
        },
        None => None,
    }
}

/// The plot when there is one: present, not empty and not `"N/A"`.
pub open spec fn given_plot(o: Option<String>) -> Option<Seq<char>> {
    match given(o) {
        Some(s) => if s.len() > 0 {
            Some(s)
        } else {
            None
        },
        None => None,
    }
}

pub open spec fn or_keep(o: Option<Seq<char>>, old: Seq<char>) -> Seq<char> {
    match o {
        Some(s) => s,
        None => old,
    }
}

/// A movie after an OMDb answer: title, IMDb identifier and year as given;
/// plot, rating, genre and running time unless absent or `"N/A"`; marked as
/// having metadata.
pub open spec fn with_omdb(m: MovieView, r: OmdbResult) -> MovieView {
    MovieView {
        title: or_keep(opt_view(r.title), m.title),
        year: match omdb_year(r.year) {
            Some(y) => y,
            None => m.year,
        },
        synopsis: or_keep(given_plot(r.plot), m.synopsis),
        imdb_id: or_keep(opt_view(r.imdb_id), m.imdb_id),
        rating: or_keep(given(r.imdb_rating), m.rating),
        genre: or_keep(given(r.genre), m.genre),
        runtime: or_keep(given(r.runtime), m.runtime),
        has_metadata: true,
        ..m
    }
}

fn given_exec(o: &Option<String>) -> (r: Option<&str>)
    ensures
        match r {
            Some(s) => given(*o) == Some(s@),
            None => given(*o) is None,
        },
{
    match o {
        Some(s) => {
            proof {
                reveal_strlit("N/A");
            }
            if str_equal(s.as_str(), "N/A") {
                None
            } else {
                Some(s.as_str())
            }
        },
        None => None,
    }
}

/// Copies what an OMDb answer gives into a movie.
pub fn apply_omdb_result(movie: &mut MovieObject, result: &OmdbResult)
    ensures
        final(movie)@ == with_omdb(old(movie)@, *result),
{
    if let Some(t) = &result.title {
        movie.set_title(t.as_str());
    }
    if let Some(y) = result.year_i32() {
        movie.set_year(y);
    }
    if let Some(p) = given_exec(&result.plot) {
        if !p.is_empty() {
            movie.set_synopsis(p);
        }
    }
    if let Some(id) = &result.imdb_id {
        movie.set_imdb_id(id.as_str());
    }
    if let Some(x) = given_exec(&result.imdb_rating) {
        movie.set_rating(x);
    }
    if let Some(x) = given_exec(&result.genre) {
        movie.set_genre(x);
    }
    if let Some(x) = given_exec(&result.runtime) {
        movie.set_runtime(x);
    }
    movie.set_has_metadata(true);
}

/// Whether an OMDb answer has a poster to fetch: a usable poster URL.
pub open spec fn has_poster(r: OmdbResult) -> bool {
    r.poster is Some && usable_poster(r.poster->0@)
}

/// The poster to fetch for an OMDb answer: its cache key (from the IMDb
/// identifier) and its URL, when the answer has a usable poster URL.
pub fn poster_request(result: &OmdbResult) -> (r: Option<(u64, String)>)
    ensures
        r is Some == has_poster(*result),
        r matches Some(p) ==> p.0 == imdb_cache_key(result.imdb_id) && p.1@ == result.poster->0@,
{
    match result.poster_url() {
        Some(url) => Some((result.cache_key(), url.to_owned())),
        None => None,
    }
}

/// Takes in the outcome of a poster fetch: the movie shows the cached file
/// when there is one and is left alone otherwise; the outcome is what the
/// record keeps.
pub fn record_poster(movie: &mut MovieObject, poster: Option<String>) -> (r: Option<String>)
    ensures
        r == poster,
        final(movie)@ == (match poster {
            Some(p) => MovieView { poster_path: p@, ..old(movie)@ },
            None => old(movie)@,
        }),
{
    if let Some(p) = &poster {
        movie.set_poster_path(p.as_str());
    }
    poster
}

/// A text as an optional value: `None` when it is empty.
pub open spec fn non_empty(s: Seq<char>) -> Option<Seq<char>> {
    if s.len() == 0 {
        None
    } else {
        Some(s)
    }
}

fn non_empty_exec(s: String) -> (r: Option<String>)
    ensures
        opt_view(r) == non_empty(s@),
{
    if s.as_str().is_empty() {
        None
    } else {
        Some(s)
    }
}

/// The record kept after a successful enrichment of a movie.
pub open spec fn enriched(
    search_title: Seq<char>,
    search_year: Option<i32>,
    m: MovieView,
    poster_path: Option<Seq<char>>,
) -> MetadataView {
    MetadataView {
        search_title,
        search_year,
        title: Some(m.title),
        year: known_year(m.year),
        synopsis: non_empty(m.synopsis),
        poster_path,
        imdb_id: non_empty(m.imdb_id),
        imdb_rating: non_empty(m.rating),
        genre: non_empty(m.genre),
        runtime: non_empty(m.runtime),
        has_metadata: true,
        subtitle_path: None,
        last_position: None,
    }
}

/// Builds the record of an enriched movie.
pub fn enriched_metadata(
    search_title: &str,
    search_year: Option<i32>,
    movie: &MovieObject,
    poster_path: Option<String>,
) -> (r: StoredMetadata)
    ensures
        r@ == enriched(search_title@, search_year, movie@, opt_view(poster_path)),
{
    StoredMetadata {
        search_title: search_title.to_owned(),
        search_year,
        title: Some(movie.title()),
        year: limited_year(movie.year()),
        synopsis: non_empty_exec(movie.synopsis()),
        poster_path,
        imdb_id: non_empty_exec(movie.imdb_id()),
        imdb_rating: non_empty_exec(movie.rating()),
        genre: non_empty_exec(movie.genre()),
        runtime: non_empty_exec(movie.runtime()),
        has_metadata: true,
        subtitle_path: None,
        last_position: None,
    }
}

/// A movie after its stored record is applied: each value the record holds
/// replaces the movie's; `has_metadata` is the record's; subtitles are
/// marked ready when the record names a subtitle file that is on disk.
pub open spec fn with_stored(m: MovieView, s: MetadataView, subtitle_on_disk: bool) -> MovieView {
    MovieView {
        title: or_keep(s.title, m.title),
        year: match s.year {
            Some(y) => y,
            None => m.year,
        },
        synopsis: or_keep(s.synopsis, m.synopsis),
        poster_path: or_keep(s.poster_path, m.poster_path),
        imdb_id: or_keep(s.imdb_id, m.imdb_id),
        rating: or_keep(s.imdb_rating, m.rating),
        genre: or_keep(s.genre, m.genre),
        runtime: or_keep(s.runtime, m.runtime),
        has_metadata: s.has_metadata,
        subtitles_ready: if s.subtitle_path is Some && subtitle_on_disk {
            true
        } else {
            m.subtitles_ready
        },
        ..m
    }
}

/// Applies a stored record to a movie; `subtitle_on_disk` tells whether the
/// record's subtitle file exists.
pub fn apply_stored_to_movie(movie: &mut MovieObject, stored: &StoredMetadata, subtitle_on_disk: bool)
    ensures
        final(movie)@ == with_stored(old(movie)@, stored@, subtitle_on_disk),
{
    if let Some(t) = &stored.title {
        movie.set_title(t.as_str());
    }
    if let Some(y) = stored.year {
        movie.set_year(y);
    }
    if let Some(s) = &stored.synopsis {
        movie.set_synopsis(s.as_str());
    }
    if let Some(p) = &stored.poster_path {
        movie.set_poster_path(p.as_str());
    }
    if let Some(id) = &stored.imdb_id {
        movie.set_imdb_id(id.as_str());
    }
    if let Some(x) = &stored.imdb_rating {
        movie.set_rating(x.as_str());
    }
    if let Some(x) = &stored.genre {
        movie.set_genre(x.as_str());
    }
    if let Some(x) = &stored.runtime {
        movie.set_runtime(x.as_str());
    }
    movie.set_has_metadata(stored.has_metadata);
    if stored.subtitle_path.is_some() && subtitle_on_disk {
        movie.set_subtitles_ready(true);
    }
}

/// Applies a stored record to a movie, looking on disk for the record's
/// subtitle file (its `subtitle_path`). Everything but the subtitle mark is
/// as `with_stored` says; the mark is set only when the record names a
/// subtitle file, and then only if that file exists.
pub fn apply_stored(movie: &mut MovieObject, stored: &StoredMetadata)
    ensures
        final(movie)@ == with_stored(old(movie)@, stored@, false) || final(movie)@ == with_stored(
            old(movie)@,
            stored@,
            true,
        ),
{
    let on_disk = match &stored.subtitle_path {
        Some(p) => crate::cache::path_exists(p.as_str()),
        None => false,
    };
    apply_stored_to_movie(movie, stored, on_disk);
}

/// Applying a stored record: every value the record holds becomes the
/// movie's (title, year, synopsis, poster, IMDb identifier, rating, genre,
/// running time), a value it lacks leaves the movie's as it was, the movie
/// takes the record's metadata mark, and its file stays the same.
pub proof fn law_stored_values_applied(m: MovieView, s: MetadataView, on_disk: bool)
    ensures
        ({
            let r = with_stored(m, s, on_disk);
            &&& (s.title matches Some(t) ==> r.title == t)
            &&& (s.title is None ==> r.title == m.title)
            &&& (s.year matches Some(y) ==> r.year == y)
            &&& (s.year is None ==> r.year == m.year)
            &&& (s.synopsis matches Some(x) ==> r.synopsis == x)
            &&& (s.synopsis is None ==> r.synopsis == m.synopsis)
            &&& (s.poster_path matches Some(p) ==> r.poster_path == p)
            &&& (s.poster_path is None ==> r.poster_path == m.poster_path)
            &&& (s.imdb_id matches Some(x) ==> r.imdb_id == x)
            &&& (s.imdb_id is None ==> r.imdb_id == m.imdb_id)
            &&& (s.imdb_rating matches Some(x) ==> r.rating == x)
            &&& (s.imdb_rating is None ==> r.rating == m.rating)
            &&& (s.genre matches Some(x) ==> r.genre == x)
            &&& (s.genre is None ==> r.genre == m.genre)
            &&& (s.runtime matches Some(x) ==> r.runtime == x)
            &&& (s.runtime is None ==> r.runtime == m.runtime)
            &&& r.has_metadata == s.has_metadata
            &&& r.video_path == m.video_path
            &&& (s.subtitle_path is Some && on_disk ==> r.subtitles_ready)
            &&& (!(s.subtitle_path is Some && on_disk) ==> r.subtitles_ready == m.subtitles_ready)
        }),
{
}

} // verus!
