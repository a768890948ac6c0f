//! The orders in which the catalogue can be shown.

use vstd::prelude::*;
use crate::movie::{MovieObject, MovieView};
use crate::text::{chars_of, to_lowercase, unicode_lowercase};

verus! {

/// How the catalogue is ordered.
#[derive(Debug, Clone, Copy, PartialEq, Eq, Structural)]
pub enum SortMode {
    /// The order in which the movies were found.
    Unsorted,
    /// Title, A to Z.
    TitleAsc,
    /// Title, Z to A.
    TitleDesc,
    /// Newest first.
    YearDesc,
    /// Oldest first.
    YearAsc,
}

impl Default for SortMode {
    fn default() -> (m: SortMode)
        ensures
            m == SortMode::Unsorted,
    {
        SortMode::Unsorted
    }
}

/// The name of the menu action that selects a mode.
pub open spec fn action_name_of(mode: SortMode) -> Seq<char> {
    match mode {
        SortMode::Unsorted => "none"@,
        SortMode::TitleAsc => "title-asc"@,
        SortMode::TitleDesc => "title-desc"@,
        SortMode::YearDesc => "year-desc"@,
        SortMode::YearAsc => "year-asc"@,
    }
}

/// The menu action of a mode.
pub fn sort_action_name(mode: SortMode) -> (r: &'static str)
    ensures
        r@ == action_name_of(mode),
{
    match mode {
        SortMode::Unsorted => "none",
        SortMode::TitleAsc => "title-asc",
        SortMode::TitleDesc => "title-desc",
        SortMode::YearDesc => "year-desc",
        SortMode::YearAsc => "year-asc",
    }
}

/// The mode a menu action selects, if the name is one of them.
pub fn sort_mode_for_action(name: &str) -> (r: Option<SortMode>)
    ensures
        match r {
            Some(m) => action_name_of(m) == name@,
            None => forall|m: SortMode| action_name_of(m) != name@,
        },
{
    let all = [SortMode::Unsorted, SortMode::TitleAsc, SortMode::TitleDesc, SortMode::YearDesc, SortMode::YearAsc];
    let mut i: usize = 0;
    while i < 5
        invariant
            i <= 5,
            all@ == seq![SortMode::Unsorted, SortMode::TitleAsc, SortMode::TitleDesc, SortMode::YearDesc, SortMode::YearAsc],
            forall|k: int| 0 <= k < i ==> action_name_of(#[trigger] all@[k]) != name@,
        decreases 5 - i,
    {
        let m = all[i];
        if crate::text::str_equal(sort_action_name(m), name) {
            return Some(m);
        }
        i = i + 1;
    }
    assert forall|m: SortMode| action_name_of(m) != name@ by {
        match m {
            SortMode::Unsorted => assert(all@[0] == m),
            SortMode::TitleAsc => assert(all@[1] == m),
            SortMode::TitleDesc => assert(all@[2] == m),
            SortMode::YearDesc => assert(all@[3] == m),
            SortMode::YearAsc => assert(all@[4] == m),
        }
    }
    None
}

/// The answer of a comparison: the first item goes before, with, or after
/// the second.
#[derive(Debug, Clone, Copy, PartialEq, Eq, Structural)]
pub enum SortOrder {
    Smaller,
    Equal,
    Larger,
}

pub open spec fn reversed(o: SortOrder) -> SortOrder {
    match o {
        SortOrder::Smaller => SortOrder::Larger,
        SortOrder::Equal => SortOrder::Equal,
        SortOrder::Larger => SortOrder::Smaller,
    }
}

/// Lexicographic order of texts by code point (the order of `String`s, whose
/// UTF-8 bytes sort as their code points do).
pub open spec fn text_order(a: Seq<char>, b: Seq<char>) -> SortOrder
    decreases a.len(),
{
    if a.len() == 0 {
        if b.len() == 0 {
            SortOrder::Equal
        } else {
            SortOrder::Smaller
        }
    } else if b.len() == 0 {
        SortOrder::Larger
    } else if (a[0] as u32) < (b[0] as u32) {
        SortOrder::Smaller
    } else if (a[0] as u32) > (b[0] as u32) {
        SortOrder::Larger
    } else {
        text_order(a.drop_first(), b.drop_first())
    }
}

pub open spec fn number_order(a: int, b: int) -> SortOrder {
    if a < b {
        SortOrder::Smaller
    } else if a == b {
        SortOrder::Equal
    } else {
        SortOrder::Larger
    }
}

/// Where movie `a` stands against movie `b` in `mode`: movies with metadata
/// come first whatever the mode; among equals, titles compare in lower case.
pub open spec fn movie_order(mode: SortMode, a: MovieView, b: MovieView) -> SortOrder {
    if a.has_metadata && !b.has_metadata {
        SortOrder::Smaller
    } else if !a.has_metadata && b.has_metadata {
        SortOrder::Larger
    } else {
        match mode {
            SortMode::Unsorted => SortOrder::Equal,
            SortMode::TitleAsc => text_order(unicode_lowercase(a.title), unicode_lowercase(b.title)),
            SortMode::TitleDesc => text_order(unicode_lowercase(b.title), unicode_lowercase(a.title)),
            SortMode::YearDesc => number_order(b.year as int, a.year as int),
            SortMode::YearAsc => number_order(a.year as int, b.year as int),
        }
    }
}

proof fn lemma_text_order_step(a: Seq<char>, b: Seq<char>, i: int)
    requires
        0 <= i < a.len(),
        i < b.len(),
        (a[i] as u32) == (b[i] as u32),
    ensures
        text_order(a.skip(i), b.skip(i)) == text_order(a.skip(i + 1), b.skip(i + 1)),
{
    assert(a.skip(i)[0] == a[i]);
    assert(b.skip(i)[0] == b[i]);
    assert(a.skip(i).drop_first() =~= a.skip(i + 1));
    assert(b.skip(i).drop_first() =~= b.skip(i + 1));
}

/// Compares two texts by code point.
fn text_order_exec(a: &[char], b: &[char]) -> (r: SortOrder)
    ensures
        r == text_order(a@, b@),
{
    let mut i: usize = 0;
    assert(a@.skip(0) =~= a@);
    assert(b@.skip(0) =~= b@);
    while i < a.len() && i < b.len()
        invariant
            i <= a@.len(),
            i <= b@.len(),
            text_order(a@, b@) == text_order(a@.skip(i as int), b@.skip(i as int)),
        decreases a.len() - i,
    {
        let x = a[i] as u32;
        let y = b[i] as u32;
        if x < y {
            return SortOrder::Smaller;
        }
        if x > y {
            return SortOrder::Larger;
        }
        proof {
            lemma_text_order_step(a@, b@, i as int);
        }
        i = i + 1;
    }
    if i < b.len() {
        SortOrder::Smaller
    } else if i < a.len() {
        SortOrder::Larger
    } else {
        SortOrder::Equal
    }
}

fn number_order_exec(a: i32, b: i32) -> (r: SortOrder)
    ensures
        r == number_order(a as int, b as int),
{
    if a < b {
        SortOrder::Smaller
    } else if a == b {
        SortOrder::Equal
    } else {
        SortOrder::Larger
    }
}

/// Orders the catalogue by one `SortMode`.
pub struct MovieSorter {
    sort_mode: SortMode,
}

impl MovieSorter {
    pub closed spec fn mode(&self) -> SortMode {
        self.sort_mode
    }

    pub fn new(mode: SortMode) -> (s: MovieSorter)
        ensures
            s.mode() == mode,
    {
        MovieSorter { sort_mode: mode }
    }

    /// The mode the sorter orders by.
    pub fn sort_mode(&self) -> (m: SortMode)
        ensures
            m == self.mode(),
    {
        self.sort_mode
    }

    /// Where `movie1` stands against `movie2`.
    pub fn compare(&self, movie1: &MovieObject, movie2: &MovieObject) -> (r: SortOrder)
        ensures
            r == movie_order(self.mode(), movie1@, movie2@),
    {
        let has1 = movie1.has_metadata();
        let has2 = movie2.has_metadata();
        if has1 && !has2 {
            return SortOrder::Smaller;
        }
        if !has1 && has2 {
            return SortOrder::Larger;
        }
        match self.sort_mode {
            SortMode::Unsorted => SortOrder::Equal,
            SortMode::TitleAsc => {
                let t1 = to_lowercase(movie1.title().as_str());
                let t2 = to_lowercase(movie2.title().as_str());
                text_order_exec(&chars_of(t1.as_str()), &chars_of(t2.as_str()))
            },
            SortMode::TitleDesc => {
                let t1 = to_lowercase(movie1.title().as_str());
                let t2 = to_lowercase(movie2.title().as_str());
                text_order_exec(&chars_of(t2.as_str()), &chars_of(t1.as_str()))
            },
            SortMode::YearDesc => number_order_exec(movie2.year(), movie1.year()),
            SortMode::YearAsc => number_order_exec(movie1.year(), movie2.year()),
        }
    }
}

proof fn lemma_text_order_reverse(a: Seq<char>, b: Seq<char>)
    ensures
        text_order(b, a) == reversed(text_order(a, b)),
    decreases a.len(),
{
    if a.len() > 0 && b.len() > 0 && (a[0] as u32) == (b[0] as u32) {
        lemma_text_order_reverse(a.drop_first(), b.drop_first());
    }
}

proof fn lemma_text_order_same(a: Seq<char>)
    ensures
        text_order(a, a) == SortOrder::Equal,
    decreases a.len(),
{
    if a.len() > 0 {
        lemma_text_order_same(a.drop_first());
    }
}

proof fn lemma_text_order_transitive(a: Seq<char>, b: Seq<char>, c: Seq<char>)
    requires
        text_order(a, b) != SortOrder::Larger,
        text_order(b, c) != SortOrder::Larger,
    ensures
        text_order(a, c) != SortOrder::Larger,
        text_order(a, b) == SortOrder::Smaller || text_order(b, c) == SortOrder::Smaller
            ==> text_order(a, c) == SortOrder::Smaller,
    decreases a.len(),
{
    if a.len() > 0 && b.len() > 0 && c.len() > 0 && (a[0] as u32) == (b[0] as u32) && (b[0]
        as u32) == (c[0] as u32) {
        lemma_text_order_transitive(a.drop_first(), b.drop_first(), c.drop_first());
    }
}

/// Swapping the two movies of a comparison reverses its answer, in every
/// mode: the sorter is antisymmetric.
pub proof fn law_compare_antisymmetric(mode: SortMode, a: MovieView, b: MovieView)
    ensures
        movie_order(mode, b, a) == reversed(movie_order(mode, a, b)),
{
    lemma_text_order_reverse(unicode_lowercase(a.title), unicode_lowercase(b.title));
}

/// A movie compares equal to itself in every mode.
pub proof fn law_compare_reflexive(mode: SortMode, a: MovieView)
    ensures
        movie_order(mode, a, a) == SortOrder::Equal,
{
    lemma_text_order_same(unicode_lowercase(a.title));
}

/// If `a` goes no later than `b` and `b` no later than `c`, then `a` goes no
/// later than `c` (strictly before when either step was strict): the sorter
/// is a total preorder, as a list sorter asks.
pub proof fn law_compare_transitive(mode: SortMode, a: MovieView, b: MovieView, c: MovieView)
    requires
        movie_order(mode, a, b) != SortOrder::Larger,
        movie_order(mode, b, c) != SortOrder::Larger,
    ensures
        movie_order(mode, a, c) != SortOrder::Larger,
        movie_order(mode, a, b) == SortOrder::Smaller || movie_order(mode, b, c)
            == SortOrder::Smaller ==> movie_order(mode, a, c) == SortOrder::Smaller,
{
    let la = unicode_lowercase(a.title);
    let lb = unicode_lowercase(b.title);
    let lc = unicode_lowercase(c.title);
    if a.has_metadata == b.has_metadata && b.has_metadata == c.has_metadata {
        match mode {
            SortMode::TitleAsc => lemma_text_order_transitive(la, lb, lc),
            SortMode::TitleDesc => lemma_text_order_transitive(lc, lb, la),
            _ => {},
        }
    }
}

/// A movie with metadata goes before one without, whatever the mode.
pub proof fn law_metadata_first(mode: SortMode, a: MovieView, b: MovieView)
    requires
        a.has_metadata,
        !b.has_metadata,
    ensures
        movie_order(mode, a, b) == SortOrder::Smaller,
        movie_order(mode, b, a) == SortOrder::Larger,
{
}

/// Descending order is ascending order reversed, for titles and for years.
pub proof fn law_descending_reverses_ascending(a: MovieView, b: MovieView)
    requires
        a.has_metadata == b.has_metadata,
    ensures
        movie_order(SortMode::TitleDesc, a, b) == reversed(movie_order(SortMode::TitleAsc, a, b)),
        movie_order(SortMode::YearDesc, a, b) == reversed(movie_order(SortMode::YearAsc, a, b)),
{
    lemma_text_order_reverse(unicode_lowercase(a.title), unicode_lowercase(b.title));
}

/// The action of a mode selects that mode again: names and modes
/// correspond one to one.
pub proof fn law_action_names_distinct(a: SortMode, b: SortMode)
    ensures
        action_name_of(a) == action_name_of(b) ==> a == b,
{
    reveal_strlit("none");
    reveal_strlit("title-asc");
    reveal_strlit("title-desc");
    reveal_strlit("year-desc");
    reveal_strlit("year-asc");
    if action_name_of(a) == action_name_of(b) && a != b {
        let x = action_name_of(a);
        let y = action_name_of(b);
        assert(x.len() != y.len() || x[0] != y[0] || x[5] != y[5] || x[6] != y[6]);
    }
}

proof fn lemma_text_order_first_difference(a: Seq<char>, b: Seq<char>, n: int)
    requires
        0 <= n < a.len(),
        n < b.len(),
        a.subrange(0, n) == b.subrange(0, n),
        (a[n] as u32) < (b[n] as u32),
    ensures
        text_order(a, b) == SortOrder::Smaller,
    decreases n,
{
    if n > 0 {
        assert(a[0] == a.subrange(0, n)[0]);
        assert(b[0] == b.subrange(0, n)[0]);
        assert(a.drop_first().subrange(0, n - 1) =~= a.subrange(0, n).drop_first());
        assert(b.drop_first().subrange(0, n - 1) =~= b.subrange(0, n).drop_first());
        lemma_text_order_first_difference(a.drop_first(), b.drop_first(), n - 1);
    }
}

proof fn lemma_text_order_prefix(a: Seq<char>, x: Seq<char>)
    requires
        x.len() > 0,
    ensures
        text_order(a, a + x) == SortOrder::Smaller,
    decreases a.len(),
{
    if a.len() > 0 {
        assert((a + x)[0] == a[0]);
        assert((a + x).drop_first() =~= a.drop_first() + x);
        lemma_text_order_prefix(a.drop_first(), x);
    }
}

/// Text order is lexicographic by code point: at the first place where two
/// texts differ, the smaller character decides, whatever the lengths; and a
/// text goes before any longer text it begins.
pub proof fn law_text_order_lexicographic(a: Seq<char>, b: Seq<char>, n: int, x: Seq<char>)
    ensures
        0 <= n < a.len() && n < b.len() && a.subrange(0, n) == b.subrange(0, n) && (a[n] as u32) < (
        b[n] as u32) ==> text_order(a, b) == SortOrder::Smaller,
        x.len() > 0 ==> text_order(a, a + x) == SortOrder::Smaller,
{
    if 0 <= n < a.len() && n < b.len() && a.subrange(0, n) == b.subrange(0, n) && (a[n] as u32) < (
    b[n] as u32) {
        lemma_text_order_first_difference(a, b, n);
    }
    if x.len() > 0 {
        lemma_text_order_prefix(a, x);
    }
}

/// Title order compares the lower-cased titles lexicographically: between
/// two movies with the same metadata status, in A to Z order the one whose
/// lower-cased title has the smaller character at the first difference goes
/// first, whatever the lengths, and a title that begins the other goes
/// first; Z to A gives the opposite.
pub proof fn law_title_order(a: MovieView, b: MovieView, n: int)
    requires
        a.has_metadata == b.has_metadata,
    ensures
        ({
            let la = unicode_lowercase(a.title);
            let lb = unicode_lowercase(b.title);
            (0 <= n < la.len() && n < lb.len() && la.subrange(0, n) == lb.subrange(0, n) && (la[n] as u32)
                < (lb[n] as u32)) ==> movie_order(SortMode::TitleAsc, a, b) == SortOrder::Smaller
                && movie_order(SortMode::TitleDesc, a, b) == SortOrder::Larger
        }),
        ({
            let la = unicode_lowercase(a.title);
            let lb = unicode_lowercase(b.title);
            (la.len() < lb.len() && lb.subrange(0, la.len() as int) == la) ==> movie_order(
                SortMode::TitleAsc,
                a,
                b,
            ) == SortOrder::Smaller && movie_order(SortMode::TitleDesc, a, b) == SortOrder::Larger
        }),
{
    let la = unicode_lowercase(a.title);
    let lb = unicode_lowercase(b.title);
    lemma_text_order_reverse(la, lb);
    if 0 <= n < la.len() && n < lb.len() && la.subrange(0, n) == lb.subrange(0, n) && (la[n] as u32)
        < (lb[n] as u32) {
        lemma_text_order_first_difference(la, lb, n);
    }
    if la.len() < lb.len() && lb.subrange(0, la.len() as int) == la {
        let x = lb.subrange(la.len() as int, lb.len() as int);
        assert(la + x =~= lb);
        lemma_text_order_prefix(la, x);
    }
}

} // verus!
