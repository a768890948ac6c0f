//! The catalogue: the movies of the library, in the order they were added.

use vstd::prelude::*;
use crate::movie::{MovieObject, MovieView};

verus! {

/// The list of movies the whole interface shows.
pub struct MovieCatalog {
    movies: Vec<MovieObject>,
}

/// Index of the first movie of `s` whose file is `path`, if any.
pub open spec fn first_with_path(s: Seq<MovieView>, path: Seq<char>) -> Option<int>
    decreases s.len(),
{
    if s.len() == 0 {
        None
    } else {
        match first_with_path(s.drop_last(), path) {
            Some(i) => Some(i),
            None => if s.last().video_path == path {
                Some(s.len() - 1)
            } else {
                None
            },
        }
    }
}

proof fn lemma_first_with_path(s: Seq<MovieView>, path: Seq<char>)
    ensures
        match first_with_path(s, path) {
            Some(i) => 0 <= i < s.len() && s[i].video_path == path && forall|k: int|
                0 <= k < i ==> (#[trigger] s[k]).video_path != path,
            None => forall|k: int| 0 <= k < s.len() ==> (#[trigger] s[k]).video_path != path,
        },
    decreases s.len(),
{
    if s.len() > 0 {
        lemma_first_with_path(s.drop_last(), path);
        match first_with_path(s.drop_last(), path) {
            Some(i) => {
                assert forall|k: int| 0 <= k < i implies (#[trigger] s[k]).video_path != path by {
                    assert(s[k] == s.drop_last()[k]);
                }
            },
            None => {
                assert forall|k: int| 0 <= k < s.len() - 1 implies (#[trigger] s[k]).video_path != path by {
                    assert(s[k] == s.drop_last()[k]);
                }
            },
        }
    }
}

impl MovieCatalog {
    /// The movies in catalogue order.
    pub closed spec fn movies(&self) -> Seq<MovieView> {
        self.movies@.map_values(|m: MovieObject| m@)
    }

    /// Its length fits the `u32` positions of a list model.
    pub closed spec fn wf(&self) -> bool {
        self.movies@.len() <= u32::MAX
    }

    /// An empty catalogue.
    pub fn new() -> (c: MovieCatalog)
        ensures
            c.wf(),
            c.movies() == Seq::<MovieView>::empty(),
    {
        let c = MovieCatalog { movies: Vec::new() };
        assert(c.movies() =~= Seq::<MovieView>::empty());
        c
    }

    /// The movies, for a view to show them.
    pub fn store(&self) -> (r: &Vec<MovieObject>)
        ensures
            r@.map_values(|m: MovieObject| m@) == self.movies(),
    {
        &self.movies
    }

    /// Appends a movie.
    pub fn add_movie(&mut self, movie: &MovieObject)
        requires
            old(self).wf(),
            old(self).movies().len() < u32::MAX,
        ensures
            final(self).wf(),
            final(self).movies() == old(self).movies().push(movie@),
    {
        self.movies.push(movie.duplicate());
        assert(self.movies() =~= old(self).movies().push(movie@));
    }

    /// Removes the movie at a position; a position past the end removes nothing.
    pub fn remove_movie(&mut self, position: u32)
        requires
            old(self).wf(),
        ensures
            final(self).wf(),
            final(self).movies() == (if (position as int) < old(self).movies().len() {
                old(self).movies().remove(position as int)
            } else {
                old(self).movies()
            }),
    {
        let p = position as usize;
        if p < self.movies.len() {
            self.movies.remove(p);
            assert(self.movies() =~= old(self).movies().remove(position as int));
        }
    }

    /// Removes every movie.
    pub fn clear(&mut self)
        ensures
            final(self).wf(),
            final(self).movies() == Seq::<MovieView>::empty(),
    {
        self.movies.clear();
        assert(self.movies() =~= Seq::<MovieView>::empty());
    }

    /// The first movie whose video file is `path`.
    pub fn find_by_path(&self, path: &str) -> (r: Option<&MovieObject>)
        ensures
            match first_with_path(self.movies(), path@) {
                Some(i) => r matches Some(m) && m@ == self.movies()[i],
                None => r is None,
            },
    {
        proof {
            lemma_first_with_path(self.movies(), path@);
        }
        let key = path.to_owned();
        let mut i: usize = 0;
        while i < self.movies.len()
            invariant
                i <= self.movies@.len(),
                key@ == path@,
                self.movies().len() == self.movies@.len(),
                forall|k: int| 0 <= k < i ==> (#[trigger] self.movies()[k]).video_path != path@,
                match first_with_path(self.movies(), path@) {
                    Some(j) => 0 <= j < self.movies().len() && self.movies()[j].video_path == path@
                        && forall|k: int| 0 <= k < j ==> (#[trigger] self.movies()[k]).video_path != path@,
                    None => forall|k: int| 0 <= k < self.movies().len() ==> (#[trigger] self.movies()[k]).video_path != path@,
                },
            decreases self.movies.len() - i,
        {
            let m = &self.movies[i];
            assert(self.movies()[i as int] == m@);
            if m.video_path() == key {
                return Some(m);
            }
            i = i + 1;
        }
        None
    }

    /// Replaces the movie at a position (the catalogue's movies are updated
    /// in place as their metadata arrives).
    pub fn set_movie(&mut self, position: usize, movie: MovieObject)
        requires
            old(self).wf(),
            position < old(self).movies().len(),
        ensures
            final(self).wf(),
            final(self).movies() == old(self).movies().update(position as int, movie@),
    {
        let ghost mv = movie@;
        self.movies.set(position, movie);
        assert(self.movies() =~= old(self).movies().update(position as int, mv));
    }

    /// Position of the first movie whose video file is `path`.
    pub fn position_of(&self, path: &str) -> (r: Option<usize>)
        ensures
            r matches Some(i) ==> i < self.movies().len() && self.movies()[i as int].video_path == path@,
            match first_with_path(self.movies(), path@) {
                Some(i) => r matches Some(k) && k as int == i,
                None => r is None,
            },
    {
        proof {
            lemma_first_with_path(self.movies(), path@);
        }
        let key = path.to_owned();
        let mut i: usize = 0;
        while i < self.movies.len()
            invariant
                i <= self.movies@.len(),
                key@ == path@,
                self.movies().len() == self.movies@.len(),
                forall|k: int| 0 <= k < i ==> (#[trigger] self.movies()[k]).video_path != path@,
                match first_with_path(self.movies(), path@) {
                    Some(j) => 0 <= j < self.movies().len() && self.movies()[j].video_path == path@
                        && forall|k: int| 0 <= k < j ==> (#[trigger] self.movies()[k]).video_path != path@,
                    None => forall|k: int| 0 <= k < self.movies().len() ==> (#[trigger] self.movies()[k]).video_path != path@,
                },
            decreases self.movies.len() - i,
        {
            assert(self.movies()[i as int] == self.movies@[i as int]@);
            if self.movies[i].video_path() == key {
                return Some(i);
            }
            i = i + 1;
        }
        None
    }

    /// Number of movies.
    pub fn len(&self) -> (r: u32)
        requires
            self.wf(),
        ensures
            r == self.movies().len(),
    {
        self.movies.len() as u32
    }

    /// Whether the catalogue holds no movie.
    pub fn is_empty(&self) -> (r: bool)
        requires
            self.wf(),
        ensures
            r == (self.movies().len() == 0),
    {
        self.len() == 0
    }
}

/// After a movie is added, looking up its file finds a movie with that
/// file (the new one, unless an earlier movie has the same file), and the
/// catalogue is one longer.
pub proof fn law_find_after_add(movies: Seq<MovieView>, m: MovieView)
    ensures
        first_with_path(movies.push(m), m.video_path) is Some,
        first_with_path(movies, m.video_path) is None ==> first_with_path(movies.push(m), m.video_path)
            == Some(movies.len() as int),
        first_with_path(movies, m.video_path) is Some ==> first_with_path(movies.push(m), m.video_path)
            == first_with_path(movies, m.video_path),
        movies.push(m).len() == movies.len() + 1,
{
    assert(movies.push(m).drop_last() =~= movies);
}

/// A movie that is found has the file that was looked for, and no earlier
/// movie has it.
pub proof fn law_found_movie_has_path(movies: Seq<MovieView>, path: Seq<char>)
    ensures
        first_with_path(movies, path) matches Some(i) ==> 0 <= i < movies.len() && movies[i].video_path
            == path && forall|k: int| 0 <= k < i ==> (#[trigger] movies[k]).video_path != path,
        first_with_path(movies, path) is None ==> forall|k: int|
            0 <= k < movies.len() ==> (#[trigger] movies[k]).video_path != path,
{
    lemma_first_with_path(movies, path);
}

} // verus!
