//! What the library decides around The Movie Database: the poster size it
//! asks for and the poster URL.

use vstd::prelude::*;
use crate::paths::append_chars;
use crate::text::{chars_equal, chars_of, string_of};

verus! {

/// A genre of a TMDb movie.
#[derive(Debug, Clone)]
pub struct TmdbGenre {
    pub id: u32,
    pub name: String,
}

pub open spec fn has_size(sizes: Seq<String>, s: Seq<char>) -> bool {
    exists|i: int| 0 <= i < sizes.len() && (#[trigger] sizes[i])@ == s
}

/// The poster size to ask for: `w342` when offered, else `w500`, else the
/// last size offered, else `original`.
pub open spec fn chosen_poster_size(sizes: Seq<String>) -> Seq<char> {
    if has_size(sizes, "w342"@) {
        "w342"@
    } else if has_size(sizes, "w500"@) {
        "w500"@
    } else if sizes.len() > 0 {
        sizes.last()@
    } else {
        "original"@
    }
}

fn contains_size(sizes: &Vec<String>, s: &[char]) -> (r: bool)
    ensures
        r == has_size(sizes@, s@),
{
    let mut i: usize = 0;
    while i < sizes.len()
        invariant
            i <= sizes@.len(),
            forall|k: int| 0 <= k < i ==> (#[trigger] sizes@[k])@ != s@,
        decreases sizes.len() - i,
    {
        if chars_equal(&chars_of(sizes[i].as_str()), s) {
            return true;
        }
        i = i + 1;
    }
    false
}

/// The poster size to use among the sizes the TMDb configuration offers.
pub fn choose_poster_size(sizes: &Vec<String>) -> (r: String)
    ensures
        r@ == chosen_poster_size(sizes@),
{
    let w342 = chars_of("w342");
    let w500 = chars_of("w500");
    if contains_size(sizes, &w342) {
        string_of(&w342)
    } else if contains_size(sizes, &w500) {
        string_of(&w500)
    } else if sizes.len() > 0 {
        sizes[sizes.len() - 1].clone()
    } else {
        string_of(&chars_of("original"))
    }
}

/// Image settings of a TMDb client.
pub struct TmdbImageSettings {
    pub image_base_url: String,
    pub poster_size: String,
}

impl TmdbImageSettings {
    /// URL of a poster: base URL, size and poster path, concatenated.
    pub fn poster_url(&self, poster_path: &str) -> (r: String)
        ensures
            r@ == self.image_base_url@ + self.poster_size@ + poster_path@,
    {
        let mut v = chars_of(self.image_base_url.as_str());
        append_chars(&mut v, &chars_of(self.poster_size.as_str()));
        append_chars(&mut v, &chars_of(poster_path));
        string_of(&v)
    }
}

/// Query of a TMDb title search: key, text, Spanish results, and the year
/// when there is one.
pub open spec fn tmdb_search_query_for(api_key: Seq<char>, query: Seq<char>, year: Option<i32>) -> Seq<(Seq<char>, Seq<char>)> {
    let base = seq![("api_key"@, api_key), ("query"@, query), ("language"@, "es-ES"@)];
    match year {
        Some(y) => base.push(("year"@, crate::text::signed_decimal(y as int))),
        None => base,
    }
}

/// The query parameters of a TMDb title search.
pub fn tmdb_search_query(api_key: &str, query: &str, year: Option<i32>) -> (r: Vec<(String, String)>)
    ensures
        crate::text::pairs_view(r@) == tmdb_search_query_for(api_key@, query@, year),
{
    let mut r: Vec<(String, String)> = Vec::new();
    r.push(("api_key".to_owned(), api_key.to_owned()));
    r.push(("query".to_owned(), query.to_owned()));
    r.push(("language".to_owned(), "es-ES".to_owned()));
    if let Some(y) = year {
        r.push(("year".to_owned(), crate::text::i32_decimal(y)));
    }
    assert(crate::text::pairs_view(r@) =~= tmdb_search_query_for(api_key@, query@, year));
    r
}

/// The address of a movie's details: `https://api.themoviedb.org/3/movie/{id}`.
pub open spec fn details_url_for(tmdb_id: u64) -> Seq<char> {
    "https://api.themoviedb.org/3/movie/"@ + crate::text::decimal(tmdb_id as nat)
}

/// The address of a movie's details.
pub fn movie_details_url(tmdb_id: u64) -> (r: String)
    ensures
        r@ == details_url_for(tmdb_id),
{
    crate::text::concat("https://api.themoviedb.org/3/movie/", crate::text::u64_decimal(tmdb_id).as_str())
}

} // verus!
