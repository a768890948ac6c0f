//! Stored metadata of the library, one record per video file path.

use vstd::prelude::*;
use crate::paths::{join, join_exec};
use crate::text::{chars_of, string_of};

verus! {

/// Persistent metadata of one movie, keyed by the path of its file.
#[derive(Debug, Clone)]
pub struct StoredMetadata {
    /// Title sent to OMDb (editable); first read from the file name.
    pub search_title: String,
    /// Year sent to OMDb (editable).
    pub search_year: Option<i32>,
    /// Title (from OMDb or edited by hand).
    pub title: Option<String>,
    /// Release year.
    pub year: Option<i32>,
    /// Synopsis.
    pub synopsis: Option<String>,
    /// Path of the cached poster.
    pub poster_path: Option<String>,
    /// IMDb identifier, such as `"tt0133093"`.
    pub imdb_id: Option<String>,
    /// IMDb rating, such as `"8.8"`.
    pub imdb_rating: Option<String>,
    /// Genre, such as `"Action, Sci-Fi"`.
    pub genre: Option<String>,
    /// Running time, such as `"136 min"`.
    pub runtime: Option<String>,
    /// Metadata came from OMDb or was entered by hand; such movies are not
    /// fetched again on a library refresh.
    pub has_metadata: bool,
    /// Path of the downloaded `.srt` file.
    pub subtitle_path: Option<String>,
    /// Where playback stopped last: the bits (`f64::to_bits`) of the
    /// position in seconds.
    pub last_position: Option<u64>,
}

/// The value of a `StoredMetadata`, strings as character sequences.
pub struct MetadataView {
    pub search_title: Seq<char>,
    pub search_year: Option<i32>,
    pub title: Option<Seq<char>>,
    pub year: Option<i32>,
    pub synopsis: Option<Seq<char>>,
    pub poster_path: Option<Seq<char>>,
    pub imdb_id: Option<Seq<char>>,
    pub imdb_rating: Option<Seq<char>>,
    pub genre: Option<Seq<char>>,
    pub runtime: Option<Seq<char>>,
    pub has_metadata: bool,
    pub subtitle_path: Option<Seq<char>>,
    pub last_position: Option<u64>,
}

pub open spec fn opt_view(o: Option<String>) -> Option<Seq<char>> {
    match o {
        Some(s) => Some(s@),
        None => None,
    }
}

impl View for StoredMetadata {
    type V = MetadataView;

    open spec fn view(&self) -> MetadataView {
        MetadataView {
            search_title: self.search_title@,
            search_year: self.search_year,
            title: opt_view(self.title),
            year: self.year,
            synopsis: opt_view(self.synopsis),
            poster_path: opt_view(self.poster_path),
            imdb_id: opt_view(self.imdb_id),
            imdb_rating: opt_view(self.imdb_rating),
            genre: opt_view(self.genre),
            runtime: opt_view(self.runtime),
            has_metadata: self.has_metadata,
            subtitle_path: opt_view(self.subtitle_path),
            last_position: self.last_position,
        }
    }
}

/// A record that holds only search parameters: no metadata yet.
pub open spec fn pending(search_title: Seq<char>, search_year: Option<i32>) -> MetadataView {
    MetadataView {
        search_title,
        search_year,
        title: None,
        year: None,
        synopsis: None,
        poster_path: None,
        imdb_id: None,
        imdb_rating: None,
        genre: None,
        runtime: None,
        has_metadata: false,
        subtitle_path: None,
        last_position: None,
    }
}

/// A record with new search parameters and everything else kept.
pub open spec fn with_search(m: MetadataView, search_title: Seq<char>, search_year: Option<i32>) -> MetadataView {
    MetadataView { search_title, search_year, ..m }
}

/// A record with its metadata dropped (so that it is fetched again); the
/// search parameters stay.
pub open spec fn cleared(m: MetadataView) -> MetadataView {
    pending(m.search_title, m.search_year)
}

fn clone_opt(o: &Option<String>) -> (r: Option<String>)
    ensures
        r == *o,
{
    match o {
        Some(s) => Some(s.clone()),
        None => None,
    }
}

impl StoredMetadata {
    /// A copy of the record.
    pub fn duplicate(&self) -> (r: StoredMetadata)
        ensures
            r@ == self@,
    {
        StoredMetadata {
            search_title: self.search_title.clone(),
            search_year: self.search_year,
            title: clone_opt(&self.title),
            year: self.year,
            synopsis: clone_opt(&self.synopsis),
            poster_path: clone_opt(&self.poster_path),
            imdb_id: clone_opt(&self.imdb_id),
            imdb_rating: clone_opt(&self.imdb_rating),
            genre: clone_opt(&self.genre),
            runtime: clone_opt(&self.runtime),
            has_metadata: self.has_metadata,
            subtitle_path: clone_opt(&self.subtitle_path),
            last_position: self.last_position,
        }
    }

    /// A new record with search parameters only.
    pub fn new_pending(search_title: &str, search_year: Option<i32>) -> (r: StoredMetadata)
        ensures
            r@ == pending(search_title@, search_year),
    {
        StoredMetadata {
            search_title: search_title.to_owned(),
            search_year,
            title: None,
            year: None,
            synopsis: None,
            poster_path: None,
            imdb_id: None,
            imdb_rating: None,
            genre: None,
            runtime: None,
            has_metadata: false,
            subtitle_path: None,
            last_position: None,
        }
    }
}

/// The per-user data directory of the application (`ProjectDirs::data_dir`
/// for `com.vladzur.videoclub`), when the platform gives one.
#[verifier::external_body]
fn project_data_dir() -> (r: Option<String>) {
    directories::ProjectDirs::from("com", "vladzur", "videoclub")
        .map(|dirs| dirs.data_dir().to_string_lossy().into_owned())
}

/// Where the library file lives under a data directory: `library.json` in it,
/// or `/tmp/videoclub-library.json` when there is none.
pub open spec fn store_file_for(data_dir: Option<Seq<char>>) -> Seq<char> {
    match data_dir {
        Some(d) => join(d, "library.json"@),
        None => "/tmp/videoclub-library.json"@,
    }
}

/// Library file path for a data directory.
pub fn store_file(data_dir: Option<String>) -> (r: String)
    ensures
        r@ == store_file_for(opt_view(data_dir)),
{
    match &data_dir {
        Some(d) => string_of(&join_exec(&chars_of(d.as_str()), &chars_of("library.json"))),
        None => "/tmp/videoclub-library.json".to_owned(),
    }
}

/// Library metadata, one record per video path. Kept in memory; reading and
/// writing the JSON file is the caller's part.
pub struct MetadataStore {
    path: String,
    entries: Vec<(String, StoredMetadata)>,
}

impl MetadataStore {
    /// No path occurs twice.
    pub closed spec fn wf(&self) -> bool {
        forall|i: int, j: int|
            0 <= i < j < self.entries@.len() ==> (#[trigger] self.entries@[i]).0@ != (
            #[trigger] self.entries@[j]).0@
    }

    pub closed spec fn has_key(&self, k: Seq<char>) -> bool {
        exists|i: int| 0 <= i < self.entries@.len() && (#[trigger] self.entries@[i]).0@ == k
    }

    pub closed spec fn index_of(&self, k: Seq<char>) -> int {
        choose|i: int| 0 <= i < self.entries@.len() && (#[trigger] self.entries@[i]).0@ == k
    }

    /// The records by path.
    pub closed spec fn records(&self) -> Map<Seq<char>, MetadataView> {
        Map::new(|k: Seq<char>| self.has_key(k), |k: Seq<char>| self.entries@[self.index_of(k)].1@)
    }

    /// The file the store is read from and written to.
    pub closed spec fn file(&self) -> Seq<char> {
        self.path@
    }

    proof fn lemma_index_unique(&self, k: Seq<char>, i: int)
        requires
            self.wf(),
            0 <= i < self.entries@.len(),
            self.entries@[i].0@ == k,
        ensures
            self.has_key(k),
            self.index_of(k) == i,
    {
        assert(self.has_key(k));
        let j = self.index_of(k);
        if j != i {
            if j < i {
                assert(self.entries@[j].0@ != self.entries@[i].0@);
            } else {
                assert(self.entries@[i].0@ != self.entries@[j].0@);
            }
        }
    }

    /// An empty store kept in `path`.
    pub fn new(path: String) -> (s: MetadataStore)
        ensures
            s.wf(),
            s.records() == Map::<Seq<char>, MetadataView>::empty(),
            s.file() == path@,
    {
        let s = MetadataStore { path, entries: Vec::new() };
        assert(s.records() =~= Map::<Seq<char>, MetadataView>::empty());
        s
    }

    /// An empty store kept in the library file of this user.
    pub fn default_store() -> (s: MetadataStore)
        ensures
            s.wf(),
            s.records() == Map::<Seq<char>, MetadataView>::empty(),
            exists|d: Option<Seq<char>>| s.file() == store_file_for(d),
    {
        let p = store_file(project_data_dir());
        MetadataStore::new(p)
    }

    /// The library file.
    pub fn path(&self) -> (r: &str)
        ensures
            r@ == self.file(),
    {
        self.path.as_str()
    }

    /// Number of records.
    pub fn len(&self) -> (r: usize)
        requires
            self.wf(),
        ensures
            r == self.records().dom().len(),
    {
        proof {
            self.lemma_dom_len(self.entries@.len() as int);
        }
        self.entries.len()
    }

    proof fn lemma_dom_len(&self, n: int)
        requires
            self.wf(),
            n == self.entries@.len(),
        ensures
            self.records().dom().len() == n,
            self.records().dom().finite(),
    {
        let keys = Seq::new(self.entries@.len(), |i: int| self.entries@[i].0@);
        assert forall|k: Seq<char>| #[trigger] self.records().dom().contains(k) == keys.to_set().contains(k) by {
            if self.has_key(k) {
                let i = choose|i: int| 0 <= i < self.entries@.len() && (#[trigger] self.entries@[i]).0@ == k;
                assert(keys[i] == k);
            }
            if keys.contains(k) {
                let i = choose|i: int| 0 <= i < keys.len() && keys[i] == k;
                assert(self.entries@[i].0@ == k);
            }
        }
        assert(self.records().dom() =~= keys.to_set());
        assert(keys.no_duplicates()) by {
            assert forall|i: int, j: int| 0 <= i < keys.len() && 0 <= j < keys.len() && i != j implies keys[i] != keys[j] by {
                if i < j {
                    assert(self.entries@[i].0@ != self.entries@[j].0@);
                } else {
                    assert(self.entries@[j].0@ != self.entries@[i].0@);
                }
            }
        }
        keys.unique_seq_to_set();
    }

    /// The records in store order (for writing them out).
    pub fn entries(&self) -> (r: &Vec<(String, StoredMetadata)>)
        requires
            self.wf(),
        ensures
            forall|i: int|
                0 <= i < r@.len() ==> self.records().contains_key((#[trigger] r@[i]).0@)
                    && self.records()[r@[i].0@] == r@[i].1@,
            forall|k: Seq<char>|
                self.records().contains_key(k) ==> exists|i: int|
                    0 <= i < r@.len() && (#[trigger] r@[i]).0@ == k,
    {
        proof {
            assert forall|i: int| 0 <= i < self.entries@.len() implies self.records().contains_key(
                (#[trigger] self.entries@[i]).0@,
            ) && self.records()[self.entries@[i].0@] == self.entries@[i].1@ by {
                self.lemma_index_unique(self.entries@[i].0@, i);
            }
        }
        &self.entries
    }

    fn find(&self, key: &String) -> (r: Option<usize>)
        requires
            self.wf(),
        ensures
            match r {
                Some(i) => i < self.entries@.len() && self.entries@[i as int].0@ == key@
                    && self.index_of(key@) == i && self.has_key(key@),
                None => !self.has_key(key@),
            },
    {
        let mut i: usize = 0;
        while i < self.entries.len()
            invariant
                self.wf(),
                i <= self.entries@.len(),
                forall|k: int| 0 <= k < i ==> (#[trigger] self.entries@[k]).0@ != key@,
            decreases self.entries.len() - i,
        {
            if self.entries[i].0 == *key {
                proof {
                    self.lemma_index_unique(key@, i as int);
                }
                return Some(i);
            }
            i = i + 1;
        }
        None
    }

    /// The record of a video path, if there is one.
    pub fn get(&self, video_path: &str) -> (r: Option<&StoredMetadata>)
        requires
            self.wf(),
        ensures
            r is Some == self.records().contains_key(video_path@),
            r matches Some(m) ==> m@ == self.records()[video_path@],
    {
        let key = video_path.to_owned();
        match self.find(&key) {
            Some(i) => Some(&self.entries[i].1),
            None => None,
        }
    }

    /// Inserts or replaces the record of a video path.
    pub fn upsert(&mut self, video_path: &str, meta: StoredMetadata)
        requires
            old(self).wf(),
        ensures
            final(self).wf(),
            final(self).records() == old(self).records().insert(video_path@, meta@),
            final(self).file() == old(self).file(),
    {
        let key = video_path.to_owned();
        let ghost old_self = *self;
        match self.find(&key) {
            Some(i) => {
                self.entries.set(i, (key, meta));
                proof {
                    assert(self.wf()) by {
                        assert forall|a: int, b: int| 0 <= a < b < self.entries@.len() implies (
                        #[trigger] self.entries@[a]).0@ != (#[trigger] self.entries@[b]).0@ by {
                            assert(old_self.entries@[a].0@ != old_self.entries@[b].0@);
                        }
                    }
                    self.lemma_index_unique(video_path@, i as int);
                    assert forall|k: Seq<char>| #[trigger] self.has_key(k) == old_self.has_key(k) by {
                        if old_self.has_key(k) {
                            let j = old_self.index_of(k);
                            assert(self.entries@[j].0@ == k);
                        }
                        if self.has_key(k) {
                            let j = self.index_of(k);
                            assert(old_self.entries@[j].0@ == k);
                        }
                    }
                    assert forall|k: Seq<char>| k != video_path@ && #[trigger] old_self.has_key(k) implies self.index_of(k) == old_self.index_of(k) by {
                        let j = old_self.index_of(k);
                        assert(self.entries@[j].0@ == k);
                        self.lemma_index_unique(k, j);
                    }
                    assert(self.records() =~= old_self.records().insert(video_path@, meta@));
                }
            },
            None => {
                self.entries.push((key, meta));
                proof {
                    let n = old_self.entries@.len() as int;
                    assert(self.wf()) by {
                        assert forall|a: int, b: int| 0 <= a < b < self.entries@.len() implies (
                        #[trigger] self.entries@[a]).0@ != (#[trigger] self.entries@[b]).0@ by {
                            if b < n {
                                assert(old_self.entries@[a].0@ != old_self.entries@[b].0@);
                            } else {
                                assert(old_self.entries@[a].0@ != video_path@);
                            }
                        }
                    }
                    self.lemma_index_unique(video_path@, n);
                    assert forall|k: Seq<char>| k != video_path@ implies #[trigger] self.has_key(k) == old_self.has_key(k) by {
                        if old_self.has_key(k) {
                            let j = old_self.index_of(k);
                            assert(self.entries@[j].0@ == k);
                        }
                        if self.has_key(k) {
                            let j = self.index_of(k);
                            assert(old_self.entries@[j].0@ == k);
                        }
                    }
                    assert forall|k: Seq<char>| k != video_path@ && #[trigger] old_self.has_key(k) implies self.index_of(k) == old_self.index_of(k) by {
                        let j = old_self.index_of(k);
                        assert(self.entries@[j].0@ == k);
                        self.lemma_index_unique(k, j);
                    }
                    assert(self.records() =~= old_self.records().insert(video_path@, meta@));
                }
            },
        }
    }

    /// Sets the search parameters of a video path, keeping its metadata; a
    /// path without a record gets a record with search parameters only.
    pub fn set_search_params(&mut self, video_path: &str, title: &str, year: Option<i32>)
        requires
            old(self).wf(),
        ensures
            final(self).wf(),
            final(self).file() == old(self).file(),
            final(self).records() == old(self).records().insert(
                video_path@,
                if old(self).records().contains_key(video_path@) {
                    with_search(old(self).records()[video_path@], title@, year)
                } else {
                    pending(title@, year)
                },
            ),
    {
        let updated = match self.get(video_path) {
            Some(m) => {
                let mut e = m.duplicate();
                e.search_title = title.to_owned();
                e.search_year = year;
                e
            },
            None => StoredMetadata::new_pending(title, year),
        };
        proof {
            if old(self).records().contains_key(video_path@) {
                assert(updated@ == with_search(old(self).records()[video_path@], title@, year));
            }
        }
        self.upsert(video_path, updated);
    }

    /// Drops the metadata of a video path so that it is fetched again; its
    /// search parameters stay. A path without a record is left alone.
    pub fn clear_metadata(&mut self, video_path: &str)
        requires
            old(self).wf(),
        ensures
            final(self).wf(),
            final(self).file() == old(self).file(),
            final(self).records() == (if old(self).records().contains_key(video_path@) {
                old(self).records().insert(video_path@, cleared(old(self).records()[video_path@]))
            } else {
                old(self).records()
            }),
    {
        let updated = match self.get(video_path) {
            Some(m) => StoredMetadata::new_pending(m.search_title.as_str(), m.search_year),
            None => {
                return;
            },
        };
        self.upsert(video_path, updated);
    }

    /// Records where playback of a video path stopped (bits of the position
    /// in seconds). A path without a record is left alone.
    pub fn set_last_position(&mut self, video_path: &str, position: Option<u64>)
        requires
            old(self).wf(),
        ensures
            final(self).wf(),
            final(self).file() == old(self).file(),
            final(self).records() == (if old(self).records().contains_key(video_path@) {
                old(self).records().insert(
                    video_path@,
                    MetadataView { last_position: position, ..old(self).records()[video_path@] },
                )
            } else {
                old(self).records()
            }),
    {
        let updated = match self.get(video_path) {
            Some(m) => {
                let mut e = m.duplicate();
                e.last_position = position;
                e
            },
            None => {
                return;
            },
        };
        self.upsert(video_path, updated);
    }

    /// Removes every record (writing the empty store out is the caller's part).
    pub fn clear_all(&mut self)
        ensures
            final(self).wf(),
            final(self).file() == old(self).file(),
            final(self).records() == Map::<Seq<char>, MetadataView>::empty(),
    {
        self.entries.clear();
        assert(self.records() =~= Map::<Seq<char>, MetadataView>::empty());
    }
}

/// A record read back after it was written is the record written, and
/// writing one path leaves every other path as it was.
pub proof fn law_read_after_upsert(
    records: Map<Seq<char>, MetadataView>,
    path: Seq<char>,
    meta: MetadataView,
    other: Seq<char>,
)
    ensures
        records.insert(path, meta).contains_key(path),
        records.insert(path, meta)[path] == meta,
        other != path ==> records.insert(path, meta).contains_key(other) == records.contains_key(other),
        other != path && records.contains_key(other) ==> records.insert(path, meta)[other] == records[other],
{
}

/// New search parameters change only the search parameters: everything the
/// record holds besides them is kept.
pub proof fn law_search_params_keep_metadata(m: MetadataView, title: Seq<char>, year: Option<i32>)
    ensures
        with_search(m, title, year).search_title == title,
        with_search(m, title, year).search_year == year,
        with_search(m, title, year) == (MetadataView { search_title: title, search_year: year, ..m }),
{
}

/// Dropping the metadata keeps the search parameters, leaves nothing else,
/// marks the record for fetching, and doing it twice is doing it once.
pub proof fn law_clear_metadata(m: MetadataView)
    ensures
        cleared(m).search_title == m.search_title,
        cleared(m).search_year == m.search_year,
        !cleared(m).has_metadata,
        cleared(m) == pending(m.search_title, m.search_year),
        cleared(cleared(m)) == cleared(m),
{
}

} // verus!
