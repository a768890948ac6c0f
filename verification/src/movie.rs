//! One movie of the catalogue: its file, what is known of it, and its state.

use vstd::prelude::*;
use crate::paths::{file_stem, file_stem_exec};
use crate::text::{chars_of, string_of};

verus! {

/// A movie of the catalogue. Empty strings and a zero year stand for
/// "not known".
pub struct MovieObject {
    title: String,
    video_path: String,
    poster_path: String,
    year: i32,
    synopsis: String,
    subtitles_ready: bool,
    has_metadata: bool,
    file_hash: String,
    imdb_id: String,
    rating: String,
    genre: String,
    runtime: String,
}

/// The value of a `MovieObject`, strings as character sequences.
pub struct MovieView {
    pub title: Seq<char>,
    pub video_path: Seq<char>,
    pub poster_path: Seq<char>,
    pub year: i32,
    pub synopsis: Seq<char>,
    pub subtitles_ready: bool,
    pub has_metadata: bool,
    pub file_hash: Seq<char>,
    pub imdb_id: Seq<char>,
    pub rating: Seq<char>,
    pub genre: Seq<char>,
    pub runtime: Seq<char>,
}

impl View for MovieObject {
    type V = MovieView;

    closed spec fn view(&self) -> MovieView {
        MovieView {
            title: self.title@,
            video_path: self.video_path@,
            poster_path: self.poster_path@,
            year: self.year,
            synopsis: self.synopsis@,
            subtitles_ready: self.subtitles_ready,
            has_metadata: self.has_metadata,
            file_hash: self.file_hash@,
            imdb_id: self.imdb_id@,
            rating: self.rating@,
            genre: self.genre@,
            runtime: self.runtime@,
        }
    }
}

/// The first title of a movie: the stem of its file name, or `Unknown`.
pub open spec fn title_from_path(path: Seq<char>) -> Seq<char> {
    match file_stem(path) {
        Some(s) => s,
        None => "Unknown"@,
    }
}

/// A movie known only by its file.
pub open spec fn fresh_movie(path: Seq<char>) -> MovieView {
    MovieView {
        title: title_from_path(path),
        video_path: path,
        poster_path: Seq::empty(),
        year: 0,
        synopsis: Seq::empty(),
        subtitles_ready: false,
        has_metadata: false,
        file_hash: Seq::empty(),
        imdb_id: Seq::empty(),
        rating: Seq::empty(),
        genre: Seq::empty(),
        runtime: Seq::empty(),
    }
}

impl MovieObject {
    /// A movie for a video file, titled after the file's stem.
    pub fn from_video_path(path: &str) -> (m: MovieObject)
        ensures
            m@ == fresh_movie(path@),
    {
        let title = match file_stem_exec(&chars_of(path)) {
            Some(s) => string_of(&s),
            None => "Unknown".to_owned(),
        };
        proof {
            reveal_strlit("Unknown");
        }
        let m = MovieObject {
            title,
            video_path: path.to_owned(),
            poster_path: String::new(),
            year: 0,
            synopsis: String::new(),
            subtitles_ready: false,
            has_metadata: false,
            file_hash: String::new(),
            imdb_id: String::new(),
            rating: String::new(),
            genre: String::new(),
            runtime: String::new(),
        };
        assert(m@.poster_path =~= Seq::<char>::empty());
        m
    }

    /// A copy of the movie.
    pub fn duplicate(&self) -> (m: MovieObject)
        ensures
            m@ == self@,
    {
        MovieObject {
            title: self.title.clone(),
            video_path: self.video_path.clone(),
            poster_path: self.poster_path.clone(),
            year: self.year,
            synopsis: self.synopsis.clone(),
            subtitles_ready: self.subtitles_ready,
            has_metadata: self.has_metadata,
            file_hash: self.file_hash.clone(),
            imdb_id: self.imdb_id.clone(),
            rating: self.rating.clone(),
            genre: self.genre.clone(),
            runtime: self.runtime.clone(),
        }
    }

    pub fn title(&self) -> (r: String)
        ensures
            r@ == self@.title,
    {
        self.title.clone()
    }

    pub fn video_path(&self) -> (r: String)
        ensures
            r@ == self@.video_path,
    {
        self.video_path.clone()
    }

    pub fn poster_path(&self) -> (r: String)
        ensures
            r@ == self@.poster_path,
    {
        self.poster_path.clone()
    }

    pub fn year(&self) -> (r: i32)
        ensures
            r == self@.year,
    {
        self.year
    }

    pub fn synopsis(&self) -> (r: String)
        ensures
            r@ == self@.synopsis,
    {
        self.synopsis.clone()
    }

    pub fn subtitles_ready(&self) -> (r: bool)
        ensures
            r == self@.subtitles_ready,
    {
        self.subtitles_ready
    }

    pub fn has_metadata(&self) -> (r: bool)
        ensures
            r == self@.has_metadata,
    {
        self.has_metadata
    }

    pub fn file_hash(&self) -> (r: String)
        ensures
            r@ == self@.file_hash,
    {
        self.file_hash.clone()
    }

    pub fn imdb_id(&self) -> (r: String)
        ensures
            r@ == self@.imdb_id,
    {
        self.imdb_id.clone()
    }

    pub fn rating(&self) -> (r: String)
        ensures
            r@ == self@.rating,
    {
        self.rating.clone()
    }

    pub fn genre(&self) -> (r: String)
        ensures
            r@ == self@.genre,
    {
        self.genre.clone()
    }

    pub fn runtime(&self) -> (r: String)
        ensures
            r@ == self@.runtime,
    {
        self.runtime.clone()
    }

    pub fn set_title(&mut self, value: &str)
        ensures
            final(self)@ == (MovieView { title: value@, ..old(self)@ }),
    {
        self.title = value.to_owned();
    }

    pub fn set_video_path(&mut self, value: &str)
        ensures
            final(self)@ == (MovieView { video_path: value@, ..old(self)@ }),
    {
        self.video_path = value.to_owned();
    }

    pub fn set_poster_path(&mut self, value: &str)
        ensures
            final(self)@ == (MovieView { poster_path: value@, ..old(self)@ }),
    {
        self.poster_path = value.to_owned();
    }

    pub fn set_year(&mut self, value: i32)
        ensures
            final(self)@ == (MovieView { year: value, ..old(self)@ }),
    {
        self.year = value;
    }

    pub fn set_synopsis(&mut self, value: &str)
        ensures
            final(self)@ == (MovieView { synopsis: value@, ..old(self)@ }),
    {
        self.synopsis = value.to_owned();
    }

    pub fn set_subtitles_ready(&mut self, value: bool)
        ensures
            final(self)@ == (MovieView { subtitles_ready: value, ..old(self)@ }),
    {
        self.subtitles_ready = value;
    }

    pub fn set_has_metadata(&mut self, value: bool)
        ensures
            final(self)@ == (MovieView { has_metadata: value, ..old(self)@ }),
    {
        self.has_metadata = value;
    }

    pub fn set_file_hash(&mut self, value: &str)
        ensures
            final(self)@ == (MovieView { file_hash: value@, ..old(self)@ }),
    {
        self.file_hash = value.to_owned();
    }

    pub fn set_imdb_id(&mut self, value: &str)
        ensures
            final(self)@ == (MovieView { imdb_id: value@, ..old(self)@ }),
    {
        self.imdb_id = value.to_owned();
    }

    pub fn set_rating(&mut self, value: &str)
        ensures
            final(self)@ == (MovieView { rating: value@, ..old(self)@ }),
    {
        self.rating = value.to_owned();
    }

    pub fn set_genre(&mut self, value: &str)
        ensures
            final(self)@ == (MovieView { genre: value@, ..old(self)@ }),
    {
        self.genre = value.to_owned();
    }

    pub fn set_runtime(&mut self, value: &str)
        ensures
            final(self)@ == (MovieView { runtime: value@, ..old(self)@ }),
    {
        self.runtime = value.to_owned();
    }
}

} // verus!
