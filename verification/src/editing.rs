//! Hand edits of a movie's metadata and the record updates that go with
//! them: saving edited fields, asking for a new search, and recording a
//! downloaded subtitle.

use vstd::prelude::*;
use crate::enricher::{known_year, limited_year, non_empty};
use crate::metadata_store::{opt_view, pending, with_search, MetadataStore, MetadataView, StoredMetadata};
use crate::movie::{MovieObject, MovieView};
use crate::text::{chars_of, decimal, parse_i32, parse_i32_chars, string_of};

verus! {

/// A year typed into a form field, read as `str::parse::<i32>` reads it.
pub fn parse_year(text: &str) -> (r: Option<i32>)
    ensures
        r == parse_i32(text@),
{
    parse_i32_chars(&chars_of(text))
}

/// How a year is shown: its digits when it is known (positive), otherwise
/// nothing.
pub open spec fn year_label(year: i32) -> Seq<char> {
    if year > 0 {
        decimal(year as nat)
    } else {
        Seq::empty()
    }
}

/// The text shown for a year.
pub fn year_text(year: i32) -> (r: String)
    ensures
        r@ == year_label(year),
{
    if year > 0 {
        string_of(&crate::text::decimal_chars(year as u64))
    } else {
        String::new()
    }
}

/// The fields of the edit form, as typed.
pub struct EditForm {
    pub title: String,
    pub year: String,
    pub synopsis: String,
    pub search_title: String,
    pub search_year: String,
}

/// The year a form field gives: what it parses to, 0 when it does not parse.
pub open spec fn typed_year(text: Seq<char>) -> i32 {
    match parse_i32(text) {
        Some(y) => y,
        None => 0,
    }
}

pub open spec fn field_of(existing: Option<MetadataView>, f: spec_fn(MetadataView) -> Option<Seq<char>>) -> Option<Seq<char>> {
    match existing {
        Some(e) => f(e),
        None => None,
    }
}

/// The record saved from the edit form: the edited title, year and
/// synopsis, the movie's IMDb identifier, and metadata marked as present;
/// search parameters from the form when given there, else the previous
/// ones (the search title falling back to the edited title); poster,
/// rating, genre, running time, subtitle and position kept from the
/// previous record.
pub open spec fn edited(existing: Option<MetadataView>, form: EditForm, imdb_id: Seq<char>) -> MetadataView {
    let y = typed_year(form.year@);
    MetadataView {
        search_title: if form.search_title@.len() > 0 {
            form.search_title@
        } else {
            match existing {
                Some(e) => e.search_title,
                None => form.title@,
            }
        },
        search_year: match parse_i32(form.search_year@) {
            Some(sy) => Some(sy),
            None => match existing {
                Some(e) => e.search_year,
                None => None,
            },
        },
        title: Some(form.title@),
        year: known_year(y),
        synopsis: non_empty(form.synopsis@),
        poster_path: field_of(existing, |e: MetadataView| e.poster_path),
        imdb_id: non_empty(imdb_id),
        imdb_rating: field_of(existing, |e: MetadataView| e.imdb_rating),
        genre: field_of(existing, |e: MetadataView| e.genre),
        runtime: field_of(existing, |e: MetadataView| e.runtime),
        has_metadata: true,
        subtitle_path: field_of(existing, |e: MetadataView| e.subtitle_path),
        last_position: match existing {
            Some(e) => e.last_position,
            None => None,
        },
    }
}

/// A movie after the edit form is saved.
pub open spec fn movie_edited(m: MovieView, form: EditForm) -> MovieView {
    MovieView {
        title: form.title@,
        year: typed_year(form.year@),
        synopsis: form.synopsis@,
        has_metadata: true,
        ..m
    }
}

fn copy_opt(o: &Option<String>) -> (r: Option<String>)
    ensures
        r == *o,
{
    match o {
        Some(s) => Some(s.clone()),
        None => None,
    }
}

fn non_empty_owned(s: &str) -> (r: Option<String>)
    ensures
        opt_view(r) == non_empty(s@),
{
    if s.is_empty() {
        None
    } else {
        Some(s.to_owned())
    }
}

/// The record to save for an edited movie.
pub fn edited_metadata(existing: Option<&StoredMetadata>, form: &EditForm, imdb_id: &str) -> (r: StoredMetadata)
    ensures
        r@ == edited(
            match existing {
                Some(e) => Some(e@),
                None => None,
            },
            *form,
            imdb_id@,
        ),
{
    let y = match parse_year(form.year.as_str()) {
        Some(y) => y,
        None => 0,
    };
    let search_title = if !form.search_title.as_str().is_empty() {
        form.search_title.clone()
    } else {
        match existing {
            Some(e) => e.search_title.clone(),
            None => form.title.clone(),
        }
    };
    let search_year = match parse_year(form.search_year.as_str()) {
        Some(sy) => Some(sy),
        None => match existing {
            Some(e) => e.search_year,
            None => None,
        },
    };
    match existing {
        Some(e) => StoredMetadata {
            search_title,
            search_year,
            title: Some(form.title.clone()),
            year: limited_year(y),
            synopsis: non_empty_owned(form.synopsis.as_str()),
            poster_path: copy_opt(&e.poster_path),
            imdb_id: non_empty_owned(imdb_id),
            imdb_rating: copy_opt(&e.imdb_rating),
            genre: copy_opt(&e.genre),
            runtime: copy_opt(&e.runtime),
            has_metadata: true,
            subtitle_path: copy_opt(&e.subtitle_path),
            last_position: e.last_position,
        },
        None => StoredMetadata {
            search_title,
            search_year,
            title: Some(form.title.clone()),
            year: limited_year(y),
            synopsis: non_empty_owned(form.synopsis.as_str()),
            poster_path: None,
            imdb_id: non_empty_owned(imdb_id),
            imdb_rating: None,
            genre: None,
            runtime: None,
            has_metadata: true,
            subtitle_path: None,
            last_position: None,
        },
    }
}

/// Saves the edit form: the movie takes the edited values and the store
/// the record `edited` describes, under the movie's file.
pub fn save_edit(store: &mut MetadataStore, movie: &mut MovieObject, form: &EditForm)
    requires
        old(store).wf(),
    ensures
        final(movie)@ == movie_edited(old(movie)@, *form),
        final(store).wf(),
        final(store).file() == old(store).file(),
        final(store).records() == old(store).records().insert(
            old(movie)@.video_path,
            edited(
                if old(store).records().contains_key(old(movie)@.video_path) {
                    Some(old(store).records()[old(movie)@.video_path])
                } else {
                    None
                },
                *form,
                old(movie)@.imdb_id,
            ),
        ),
{
    let y = match parse_year(form.year.as_str()) {
        Some(y) => y,
        None => 0,
    };
    movie.set_title(form.title.as_str());
    movie.set_year(y);
    movie.set_synopsis(form.synopsis.as_str());
    movie.set_has_metadata(true);
    let video_path = movie.video_path();
    let imdb_id = movie.imdb_id();
    let updated = edited_metadata(store.get(video_path.as_str()), form, imdb_id.as_str());
    store.upsert(video_path.as_str(), updated);
}

/// Asks for a new search with the parameters of the form: they are stored,
/// the metadata is dropped, and the movie is marked as lacking metadata so
/// that it is fetched again.
pub fn request_refetch(store: &mut MetadataStore, movie: &mut MovieObject, search_title: &str, search_year: &str)
    requires
        old(store).wf(),
    ensures
        final(movie)@ == (MovieView { has_metadata: false, ..old(movie)@ }),
        final(store).wf(),
        final(store).file() == old(store).file(),
        final(store).records() == old(store).records().insert(
            old(movie)@.video_path,
            pending(search_title@, parse_i32(search_year@)),
        ),
{
    let video_path = movie.video_path();
    let year = parse_year(search_year);
    let ghost before = store.records();
    store.set_search_params(video_path.as_str(), search_title, year);
    store.clear_metadata(video_path.as_str());
    assert(store.records() =~= before.insert(video_path@, pending(search_title@, year)));
    movie.set_has_metadata(false);
}

/// A record after a subtitle download: its subtitle path replaced by the
/// outcome (also when nothing was downloaded).
pub open spec fn with_subtitle(m: MetadataView, subtitle_path: Option<Seq<char>>) -> MetadataView {
    MetadataView { subtitle_path, ..m }
}

/// The records after a subtitle download for `video_path`: an existing
/// record takes the outcome; a movie without a record gets a new one (search
/// parameters from its title and known year) only when a subtitle was saved.
pub open spec fn after_subtitle(
    records: Map<Seq<char>, MetadataView>,
    video_path: Seq<char>,
    subtitle_path: Option<Seq<char>>,
    title: Seq<char>,
    year: i32,
) -> Map<Seq<char>, MetadataView> {
    if records.contains_key(video_path) {
        records.insert(video_path, with_subtitle(records[video_path], subtitle_path))
    } else if subtitle_path is Some {
        records.insert(video_path, with_subtitle(pending(title, known_year(year)), subtitle_path))
    } else {
        records
    }
}

/// Records the outcome of a subtitle download for a movie.
pub fn record_subtitle(store: &mut MetadataStore, video_path: &str, subtitle_path: Option<String>, title: &str, year: i32)
    requires
        old(store).wf(),
    ensures
        final(store).wf(),
        final(store).file() == old(store).file(),
        final(store).records() == after_subtitle(
            old(store).records(),
            video_path@,
            opt_view(subtitle_path),
            title@,
            year,
        ),
{
    let updated = match store.get(video_path) {
        Some(existing) => {
            let mut e = existing.duplicate();
            e.subtitle_path = subtitle_path;
            e
        },
        None => {
            if subtitle_path.is_none() {
                return;
            }
            let mut m = StoredMetadata::new_pending(title, limited_year(year));
            m.subtitle_path = subtitle_path;
            m
        },
    };
    store.upsert(video_path, updated);
}

/// What the edit form saves reads back: the typed title, the synopsis when
/// there is one, metadata marked present; the poster, rating, genre,
/// running time, subtitle and position of the previous record are kept.
pub proof fn law_saved_edit_reads_back(existing: MetadataView, form: EditForm, imdb_id: Seq<char>)
    ensures
        edited(Some(existing), form, imdb_id).title == Some(form.title@),
        edited(Some(existing), form, imdb_id).has_metadata,
        form.synopsis@.len() > 0 ==> edited(Some(existing), form, imdb_id).synopsis == Some(form.synopsis@),
        edited(Some(existing), form, imdb_id).poster_path == existing.poster_path,
        edited(Some(existing), form, imdb_id).imdb_rating == existing.imdb_rating,
        edited(Some(existing), form, imdb_id).genre == existing.genre,
        edited(Some(existing), form, imdb_id).runtime == existing.runtime,
        edited(Some(existing), form, imdb_id).subtitle_path == existing.subtitle_path,
        edited(Some(existing), form, imdb_id).last_position == existing.last_position,
        form.search_title@.len() == 0 ==> edited(Some(existing), form, imdb_id).search_title
            == existing.search_title,
{
}

/// A saved subtitle is recorded for its movie, whose other values stay; a
/// failed download removes the subtitle of an existing record and creates
/// none; other movies are untouched.
pub proof fn law_subtitle_recorded(
    records: Map<Seq<char>, MetadataView>,
    video_path: Seq<char>,
    subtitle: Seq<char>,
    title: Seq<char>,
    year: i32,
    other: Seq<char>,
)
    ensures
        after_subtitle(records, video_path, Some(subtitle), title, year).contains_key(video_path),
        after_subtitle(records, video_path, Some(subtitle), title, year)[video_path].subtitle_path
            == Some(subtitle),
        records.contains_key(video_path) ==> after_subtitle(records, video_path, Some(subtitle), title, year)[video_path]
            == (MetadataView { subtitle_path: Some(subtitle), ..records[video_path] }),
        !records.contains_key(video_path) ==> after_subtitle(records, video_path, None, title, year) == records,
        records.contains_key(video_path) ==> after_subtitle(records, video_path, None, title, year)[video_path].subtitle_path is None,
        other != video_path ==> after_subtitle(records, video_path, Some(subtitle), title, year).contains_key(other)
            == records.contains_key(other),
        other != video_path && records.contains_key(other) ==> after_subtitle(records, video_path, Some(subtitle), title, year)[other]
            == records[other],
{
}

} // verus!
