//! The library as the main window runs it: which scanned movies to enrich,
//! how an enrichment result reaches the catalogue and the store, how a
//! movie is summed up on its card, and the list of folders to scan.

use vstd::prelude::*;
use crate::catalog::{first_with_path, MovieCatalog};
use crate::enricher::{apply_stored_to_movie, with_stored};
use crate::metadata_store::{opt_view, MetadataStore, MetadataView, StoredMetadata};
use crate::movie::{MovieObject, MovieView};
use crate::text::{chars_equal, chars_of, concat, decimal, string_of};

verus! {

/// A scanned movie is enriched when enrichment was asked for and its record
/// does not already hold metadata.
pub open spec fn enrich_wanted(stored: Option<MetadataView>, enrich_after_scan: bool) -> bool {
    enrich_after_scan && !(stored matches Some(m) && m.has_metadata)
}

/// Whether a scanned movie goes to enrichment.
pub fn needs_enrichment(stored: Option<&StoredMetadata>, enrich_after_scan: bool) -> (r: bool)
    ensures
        r == enrich_wanted(
            match stored {
                Some(m) => Some(m@),
                None => None,
            },
            enrich_after_scan,
        ),
{
    let has_stored = match stored {
        Some(m) => m.has_metadata,
        None => false,
    };
    !has_stored && enrich_after_scan
}

/// A catalogue movie after an enrichment result: the record applied to it,
/// and subtitles marked ready when the result holds a subtitle file.
pub open spec fn enriched_movie(m: MovieView, s: MetadataView, subtitle_on_disk: bool) -> MovieView {
    let applied = with_stored(m, s, subtitle_on_disk);
    if s.subtitle_path is Some {
        MovieView { subtitles_ready: true, ..applied }
    } else {
        applied
    }
}

/// Takes in one enrichment result for `video_path`: the first catalogue
/// movie with that file is updated (see `enriched_movie`; `subtitle_on_disk`
/// tells whether the record's subtitle file exists), and the store keeps the
/// record.
pub fn record_enrichment(
    store: &mut MetadataStore,
    catalog: &mut MovieCatalog,
    video_path: &str,
    stored: StoredMetadata,
    subtitle_on_disk: bool,
)
    requires
        old(store).wf(),
        old(catalog).wf(),
    ensures
        final(store).wf(),
        final(catalog).wf(),
        final(store).file() == old(store).file(),
        final(store).records() == old(store).records().insert(video_path@, stored@),
        final(catalog).movies() == match first_with_path(old(catalog).movies(), video_path@) {
            Some(i) => old(catalog).movies().update(
                i,
                enriched_movie(old(catalog).movies()[i], stored@, subtitle_on_disk),
            ),
            None => old(catalog).movies(),
        },
{
    match catalog.position_of(video_path) {
        Some(i) => {
            let mut movie = match catalog.find_by_path(video_path) {
                Some(m) => m.duplicate(),
                None => {
                    proof {
                        assert(false);
                    }
                    MovieObject::from_video_path(video_path)
                },
            };
            apply_stored_to_movie(&mut movie, &stored, subtitle_on_disk);
            if stored.subtitle_path.is_some() {
                movie.set_subtitles_ready(true);
            }
            catalog.set_movie(i, movie);
        },
        None => {},
    }
    store.upsert(video_path, stored);
}

/// The summary line of a movie's card: year (when known), `⭐ rating`,
/// running time and genre, those that are not empty, joined by ` • `.
pub open spec fn summary_parts(m: MovieView) -> Seq<Seq<char>> {
    let a: Seq<Seq<char>> = if m.year > 0 {
        seq![decimal(m.year as nat)]
    } else {
        Seq::empty()
    };
    let b = if m.rating.len() > 0 {
        a.push("\u{2b50} "@ + m.rating)
    } else {
        a
    };
    let c = if m.runtime.len() > 0 {
        b.push(m.runtime)
    } else {
        b
    };
    if m.genre.len() > 0 {
        c.push(m.genre)
    } else {
        c
    }
}

/// The summary line of a movie's card.
pub fn movie_summary(movie: &MovieObject) -> (r: String)
    ensures
        r@ == crate::strings::join_with(summary_parts(movie@), " \u{2022} "@),
{
    let mut parts: Vec<Vec<char>> = Vec::new();
    if movie.year() > 0 {
        parts.push(crate::text::decimal_chars(movie.year() as u64));
    }
    let rating = movie.rating();
    if !rating.as_str().is_empty() {
        parts.push(chars_of(concat("\u{2b50} ", rating.as_str()).as_str()));
    }
    let runtime = movie.runtime();
    if !runtime.as_str().is_empty() {
        parts.push(chars_of(runtime.as_str()));
    }
    let genre = movie.genre();
    if !genre.as_str().is_empty() {
        parts.push(chars_of(genre.as_str()));
    }
    let ghost pv = parts@.map_values(|v: Vec<char>| v@);
    assert(pv =~= summary_parts(movie@));
    let joined = crate::strings::join_exec(&parts, &chars_of(" \u{2022} "));
    string_of(&joined)
}

/// The folders to scan after adding `path`: added at the end unless it is
/// already there.
pub open spec fn with_directory(dirs: Seq<Seq<char>>, path: Seq<char>) -> Seq<Seq<char>> {
    if dirs.contains(path) {
        dirs
    } else {
        dirs.push(path)
    }
}

/// The folders to scan after removing `path`: every occurrence goes, the
/// others keep their order.
pub open spec fn without_directory(dirs: Seq<Seq<char>>, path: Seq<char>) -> Seq<Seq<char>>
    decreases dirs.len(),
{
    if dirs.len() == 0 {
        Seq::empty()
    } else if dirs.last() == path {
        without_directory(dirs.drop_last(), path)
    } else {
        without_directory(dirs.drop_last(), path).push(dirs.last())
    }
}

pub open spec fn texts(v: Seq<String>) -> Seq<Seq<char>> {
    v.map_values(|s: String| s@)
}

/// Adds a folder to the list of folders to scan.
pub fn add_scan_directory(dirs: &mut Vec<String>, path: &str)
    ensures
        texts(final(dirs)@) == with_directory(texts(old(dirs)@), path@),
{
    let p = chars_of(path);
    let mut i: usize = 0;
    while i < dirs.len()
        invariant
            i <= dirs@.len(),
            p@ == path@,
            forall|k: int| 0 <= k < i ==> (#[trigger] dirs@[k])@ != path@,
        decreases dirs.len() - i,
    {
        if chars_equal(&chars_of(dirs[i].as_str()), &p) {
            assert(texts(dirs@)[i as int] == path@);
            return;
        }
        i = i + 1;
    }
    assert(!texts(dirs@).contains(path@)) by {
        if texts(dirs@).contains(path@) {
            let k = choose|k: int| 0 <= k < texts(dirs@).len() && texts(dirs@)[k] == path@;
            assert(dirs@[k]@ == path@);
        }
    }
    let ghost before = texts(dirs@);
    dirs.push(path.to_owned());
    assert(texts(dirs@) =~= before.push(path@));
}

/// Removes a folder from the list of folders to scan.
pub fn remove_scan_directory(dirs: &mut Vec<String>, path: &str)
    ensures
        texts(final(dirs)@) == without_directory(texts(old(dirs)@), path@),
{
    let p = chars_of(path);
    let mut kept: Vec<String> = Vec::new();
    let mut i: usize = 0;
    while i < dirs.len()
        invariant
            i <= dirs@.len(),
            p@ == path@,
            texts(kept@) == without_directory(texts(dirs@.subrange(0, i as int)), path@),
        decreases dirs.len() - i,
    {
        let ghost before = texts(kept@);
        let ghost prefix = texts(dirs@.subrange(0, i as int));
        assert(texts(dirs@.subrange(0, i + 1)).drop_last() =~= prefix);
        assert(texts(dirs@.subrange(0, i + 1)).last() == dirs@[i as int]@);
        if !chars_equal(&chars_of(dirs[i].as_str()), &p) {
            kept.push(dirs[i].clone());
            assert(texts(kept@) =~= before.push(dirs@[i as int]@));
        }
        i = i + 1;
    }
    assert(dirs@.subrange(0, dirs@.len() as int) =~= dirs@);
    *dirs = kept;
}

/// Adding a folder that is already listed changes nothing; after adding,
/// the folder is listed.
pub proof fn law_add_directory(dirs: Seq<Seq<char>>, path: Seq<char>)
    ensures
        with_directory(dirs, path).contains(path),
        with_directory(with_directory(dirs, path), path) == with_directory(dirs, path),
{
    if !dirs.contains(path) {
        assert(dirs.push(path)[dirs.len() as int] == path);
    }
}

proof fn lemma_push_contains(s: Seq<Seq<char>>, x: Seq<char>, d: Seq<char>)
    ensures
        s.push(x).contains(d) == (s.contains(d) || x == d),
{
    if s.contains(d) {
        let k = choose|k: int| 0 <= k < s.len() && s[k] == d;
        assert(s.push(x)[k] == d);
    }
    if x == d {
        assert(s.push(x)[s.len() as int] == d);
    }
    if s.push(x).contains(d) {
        let k = choose|k: int| 0 <= k < s.push(x).len() && s.push(x)[k] == d;
        if k < s.len() {
            assert(s[k] == d);
        }
    }
}

proof fn lemma_without_contains(dirs: Seq<Seq<char>>, path: Seq<char>, d: Seq<char>)
    ensures
        without_directory(dirs, path).contains(d) == (dirs.contains(d) && d != path),
    decreases dirs.len(),
{
    if dirs.len() == 0 {
    } else {
        let rest = dirs.drop_last();
        lemma_without_contains(rest, path, d);
        lemma_push_contains(rest, dirs.last(), d);
        assert(rest.push(dirs.last()) =~= dirs);
        if dirs.last() != path {
            lemma_push_contains(without_directory(rest, path), dirs.last(), d);
        }
    }
}

/// After a folder is removed it is no longer listed, and every other folder
/// is listed exactly when it was before.
pub proof fn law_remove_directory(dirs: Seq<Seq<char>>, path: Seq<char>, other: Seq<char>)
    ensures
        !without_directory(dirs, path).contains(path),
        other != path ==> without_directory(dirs, path).contains(other) == dirs.contains(other),
{
    lemma_without_contains(dirs, path, path);
    lemma_without_contains(dirs, path, other);
}

/// A movie whose record already holds metadata is never sent to
/// enrichment again by a scan; one without a record is, when enrichment was
/// asked for.
pub proof fn law_fetched_movies_not_refetched(m: MetadataView, enrich_after_scan: bool)
    ensures
        m.has_metadata ==> !enrich_wanted(Some(m), enrich_after_scan),
        enrich_wanted(None, enrich_after_scan) == enrich_after_scan,
        !enrich_wanted(Some(m), false),
{
}

/// The card's summary names every value the movie has: a known year comes
/// first, then a non-empty rating (after a star), running time and genre,
/// in that order, and nothing else.
pub proof fn law_summary_parts(m: MovieView)
    ensures
        ({
            let parts = summary_parts(m);
            let y: int = if m.year > 0 { 1 } else { 0 };
            let r: int = if m.rating.len() > 0 { 1 } else { 0 };
            let t: int = if m.runtime.len() > 0 { 1 } else { 0 };
            let g: int = if m.genre.len() > 0 { 1 } else { 0 };
            &&& parts.len() == y + r + t + g
            &&& (m.year > 0 ==> parts[0] == decimal(m.year as nat))
            &&& (m.rating.len() > 0 ==> parts[y] == "\u{2b50} "@ + m.rating)
            &&& (m.runtime.len() > 0 ==> parts[y + r] == m.runtime && parts.contains(m.runtime))
            &&& (m.genre.len() > 0 ==> parts[y + r + t] == m.genre && parts.contains(m.genre))
        }),
{
    let parts = summary_parts(m);
    let y: int = if m.year > 0 { 1 } else { 0 };
    let r: int = if m.rating.len() > 0 { 1 } else { 0 };
    let t: int = if m.runtime.len() > 0 { 1 } else { 0 };
    if m.runtime.len() > 0 {
        assert(parts[y + r] == m.runtime);
    }
    if m.genre.len() > 0 {
        assert(parts[y + r + t] == m.genre);
    }
}

} // verus!
