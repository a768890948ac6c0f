//! The answer record of the OMDb movie database and what the library reads
//! from it.

use vstd::prelude::*;
use crate::text::{
    before_first, before_first_chars, chars_equal, chars_of, i32_decimal, pairs_view, parse_i32,
    parse_i32_chars, parse_u64, parse_u64_chars, signed_decimal, strip_leading, strip_leading_chars,
    trim, trim_chars,
};

verus! {

/// One OMDb answer. `response` is `"True"` when the movie was found.
pub struct OmdbResult {
    pub title: Option<String>,
    pub year: Option<String>,
    pub plot: Option<String>,
    /// Direct poster URL, or `"N/A"` when there is none.
    pub poster: Option<String>,
    pub imdb_rating: Option<String>,
    /// IMDb identifier, such as `"tt0133093"`.
    pub imdb_id: Option<String>,
    pub genre: Option<String>,
    pub runtime: Option<String>,
    pub response: String,
    pub error: Option<String>,
}

/// The poster cache key that an IMDb identifier gives: the number after the
/// leading `t`s, or 0 when there is none.
pub open spec fn imdb_cache_key(imdb_id: Option<String>) -> u64 {
    match imdb_id {
        Some(id) => match parse_u64(strip_leading(id@, 't')) {
            Some(k) => k,
            None => 0,
        },
        None => 0,
    }
}

/// Whether a poster field holds a usable URL: not empty and not `"N/A"`.
pub open spec fn usable_poster(u: Seq<char>) -> bool {
    u.len() > 0 && u != "N/A"@
}

/// The release year that a `Year` field gives: the text before an en dash
/// (`"1999–2001"`), trimmed and read as an `i32`.
pub open spec fn omdb_year(year: Option<String>) -> Option<i32> {
    match year {
        Some(y) => parse_i32(trim(before_first(y@, '\u{2013}'))),
        None => None,
    }
}

impl OmdbResult {
    /// Whether OMDb found the movie.
    pub fn is_found(&self) -> (r: bool)
        ensures
            r == (self.response@ == "True"@),
    {
        let a = chars_of(self.response.as_str());
        let b = chars_of("True");
        chars_equal(&a, &b)
    }

    /// Numeric poster cache key derived from the IMDb identifier:
    /// `"tt0133093"` gives 133093.
    pub fn cache_key(&self) -> (r: u64)
        ensures
            r == imdb_cache_key(self.imdb_id),
    {
        match &self.imdb_id {
            Some(id) => {
                let v = chars_of(id.as_str());
                let digits = strip_leading_chars(&v, 't');
                match parse_u64_chars(&digits) {
                    Some(k) => k,
                    None => 0,
                }
            },
            None => 0,
        }
    }

    /// The poster URL, unless it is empty or `"N/A"`.
    pub fn poster_url(&self) -> (r: Option<&str>)
        ensures
            r is Some <==> (self.poster is Some && usable_poster(self.poster->0@)),
            r matches Some(u) ==> u@ == self.poster->0@,
    {
        match &self.poster {
            Some(u) => {
                let v = chars_of(u.as_str());
                let na = chars_of("N/A");
                if v.len() > 0 && !chars_equal(&v, &na) {
                    Some(u.as_str())
                } else {
                    None
                }
            },
            None => None,
        }
    }

    /// The release year as a number: `"1999"` gives 1999 and `"1999–2001"`
    /// gives 1999.
    pub fn year_i32(&self) -> (r: Option<i32>)
        ensures
            r == omdb_year(self.year),
    {
        match &self.year {
            Some(y) => {
                let v = chars_of(y.as_str());
                let head = before_first_chars(&v, '\u{2013}');
                let t = trim_chars(&head);
                parse_i32_chars(&t)
            },
            None => None,
        }
    }
}

/// Query of a title search: the key, the title, movies only, the full plot,
/// and the year when there is one.
pub open spec fn omdb_query_for(api_key: Seq<char>, title: Seq<char>, year: Option<i32>) -> Seq<(Seq<char>, Seq<char>)> {
    let base = seq![("apikey"@, api_key), ("t"@, title), ("type"@, "movie"@), ("plot"@, "full"@)];
    match year {
        Some(y) => base.push(("y"@, signed_decimal(y as int))),
        None => base,
    }
}

/// The query parameters of a title search.
pub fn omdb_query(api_key: &str, title: &str, year: Option<i32>) -> (r: Vec<(String, String)>)
    ensures
        pairs_view(r@) == omdb_query_for(api_key@, title@, year),
{
    let mut r: Vec<(String, String)> = Vec::new();
    r.push(("apikey".to_owned(), api_key.to_owned()));
    r.push(("t".to_owned(), title.to_owned()));
    r.push(("type".to_owned(), "movie".to_owned()));
    r.push(("plot".to_owned(), "full".to_owned()));
    if let Some(y) = year {
        r.push(("y".to_owned(), i32_decimal(y)));
    }
    assert(pairs_view(r@) =~= omdb_query_for(api_key@, title@, year));
    r
}

/// The outcome of a title search: the answer when it found the movie.
pub fn found_movie(result: OmdbResult) -> (r: Option<OmdbResult>)
    ensures
        r is Some == (result.response@ == "True"@),
        r matches Some(x) ==> x == result,
{
    if result.is_found() {
        Some(result)
    } else {
        None
    }
}

} // verus!
