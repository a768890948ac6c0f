//! Where downloaded posters are kept between sessions.

use vstd::prelude::*;
use crate::paths::{join, join_exec};
use crate::text::{chars_of, decimal, decimal_chars, string_of};

verus! {

/// Poster cache: one `{key}.jpg` file per movie under a cache directory.
pub struct PosterCache {
    cache_dir: String,
}

/// The per-user cache directory of the application (`ProjectDirs::cache_dir`
/// for `com.vladzur.videoclub`), when the platform gives one.
#[verifier::external_body]
fn project_cache_dir() -> (r: Option<String>) {
    directories::ProjectDirs::from("com", "vladzur", "videoclub")
        .map(|dirs| dirs.cache_dir().to_string_lossy().into_owned())
}

/// Whether a file exists at `path` (`std::path::Path::exists`). Nothing is
/// claimed: the answer depends on the file system.
#[verifier::external_body]
pub(crate) fn path_exists(path: &str) -> (r: bool) {
    std::path::Path::new(path).exists()
}

/// The poster directory for a cache root: `posters` under it, or under
/// `/tmp/videoclub-cache` when there is no root.
pub open spec fn poster_dir_for(root: Option<Seq<char>>) -> Seq<char> {
    match root {
        Some(r) => join(r, "posters"@),
        None => join("/tmp/videoclub-cache"@, "posters"@),
    }
}

/// The file of the poster with key `key` in `dir`: `{dir}/{key}.jpg`.
pub open spec fn poster_file(dir: Seq<char>, key: u64) -> Seq<char> {
    join(dir, decimal(key as nat) + ".jpg"@)
}

impl PosterCache {
    pub closed spec fn dir(&self) -> Seq<char> {
        self.cache_dir@
    }

    /// A cache rooted at `root` (see `poster_dir_for`).
    pub fn with_root(root: Option<String>) -> (c: PosterCache)
        ensures
            c.dir() == poster_dir_for(match root {
                Some(r) => Some(r@),
                None => None,
            }),
    {
        let base = match &root {
            Some(r) => chars_of(r.as_str()),
            None => chars_of("/tmp/videoclub-cache"),
        };
        let dir = join_exec(&base, &chars_of("posters"));
        PosterCache { cache_dir: string_of(&dir) }
    }

    /// The cache of this user. The directory is not created here; the caller
    /// creates it before storing posters.
    pub fn new() -> (c: PosterCache)
        ensures
            exists|root: Option<Seq<char>>| c.dir() == poster_dir_for(root),
    {
        let c = PosterCache::with_root(project_cache_dir());
        c
    }

    /// The poster directory.
    pub fn cache_dir(&self) -> (r: &str)
        ensures
            r@ == self.dir(),
    {
        self.cache_dir.as_str()
    }

    /// Where the poster with key `tmdb_id` is stored.
    pub fn poster_path(&self, tmdb_id: u64) -> (r: String)
        ensures
            r@ == poster_file(self.dir(), tmdb_id),
    {
        let mut name = decimal_chars(tmdb_id);
        crate::paths::append_chars(&mut name, &chars_of(".jpg"));
        let p = join_exec(&chars_of(self.cache_dir.as_str()), &name);
        string_of(&p)
    }

    /// The stored poster of `tmdb_id`, if its file exists.
    pub fn get_cached(&self, tmdb_id: u64) -> (r: Option<String>)
        ensures
            r matches Some(p) ==> p@ == poster_file(self.dir(), tmdb_id),
    {
        let path = self.poster_path(tmdb_id);
        let present = path_exists(path.as_str());
        self.cached_poster(tmdb_id, present)
    }

    /// The stored poster of `tmdb_id` given whether its file exists
    /// (`present`): its path when it does, nothing otherwise.
    pub fn cached_poster(&self, tmdb_id: u64, present: bool) -> (r: Option<String>)
        ensures
            present ==> (r matches Some(p) && p@ == poster_file(self.dir(), tmdb_id)),
            !present ==> r is None,
    {
        if present {
            Some(self.poster_path(tmdb_id))
        } else {
            None
        }
    }
}

/// Whether a cached file of age `age` (seconds and nanoseconds, as a
/// `Duration`) is older than `max_age` and goes in a prune.
pub open spec fn expired(age: (u64, u32), max_age: (u64, u32)) -> bool {
    age.0 > max_age.0 || (age.0 == max_age.0 && age.1 > max_age.1)
}

/// Whether a cached file is pruned: its age is above the limit.
pub fn is_expired(age_secs: u64, age_nanos: u32, max_secs: u64, max_nanos: u32) -> (r: bool)
    ensures
        r == expired((age_secs, age_nanos), (max_secs, max_nanos)),
{
    age_secs > max_secs || (age_secs == max_secs && age_nanos > max_nanos)
}

/// Age after which a cached poster is pruned: 90 days, in seconds.
pub const POSTER_MAX_AGE_SECS: u64 = 7776000;

proof fn lemma_digit_char_injective(a: nat, b: nat)
    requires
        a < 10,
        b < 10,
        crate::text::digit_char(a) == crate::text::digit_char(b),
    ensures
        a == b,
{
}

proof fn lemma_decimal_injective(a: nat, b: nat)
    requires
        decimal(a) == decimal(b),
    ensures
        a == b,
    decreases a,
{
    lemma_decimal_nonempty(a / 10);
    lemma_decimal_nonempty(b / 10);
    if a < 10 && b < 10 {
        let ca = crate::text::digit_char(a);
        let cb = crate::text::digit_char(b);
        assert(decimal(a) == seq![ca]);
        assert(decimal(b) == seq![cb]);
        assert(seq![ca][0] == ca);
        assert(seq![cb][0] == cb);
        assert(ca == cb);
        lemma_digit_char_injective(a, b);
    } else if a >= 10 && b >= 10 {
        let da = decimal(a);
        let db = decimal(b);
        assert(da.drop_last() == decimal(a / 10));
        assert(db.drop_last() == decimal(b / 10));
        assert(da.last() == db.last());
        lemma_digit_char_injective(a % 10, b % 10);
        lemma_decimal_injective(a / 10, b / 10);
    } else if a < 10 {
        assert(decimal(a).len() == 1);
        assert(decimal(b).len() == decimal(b / 10).len() + 1);
    } else {
        assert(decimal(b).len() == 1);
        assert(decimal(a).len() == decimal(a / 10).len() + 1);
    }
}

proof fn lemma_decimal_nonempty(n: nat)
    ensures
        decimal(n).len() >= 1,
        decimal(n)[0] != '/',
    decreases n,
{
    if n >= 10 {
        lemma_decimal_nonempty(n / 10);
        assert(decimal(n)[0] == decimal(n / 10)[0]);
    }
}

/// Two different poster keys never share a file in one cache.
pub proof fn law_poster_files_distinct(dir: Seq<char>, k1: u64, k2: u64)
    requires
        k1 != k2,
    ensures
        poster_file(dir, k1) != poster_file(dir, k2),
{
    let n1 = decimal(k1 as nat) + ".jpg"@;
    let n2 = decimal(k2 as nat) + ".jpg"@;
    lemma_decimal_nonempty(k1 as nat);
    lemma_decimal_nonempty(k2 as nat);
    assert(n1[0] == decimal(k1 as nat)[0]);
    assert(n2[0] == decimal(k2 as nat)[0]);
    if poster_file(dir, k1) == poster_file(dir, k2) {
        let p = if dir.len() == 0 || dir.last() == '/' { dir } else { dir + seq!['/'] };
        assert(poster_file(dir, k1) == p + n1);
        assert(poster_file(dir, k2) == p + n2);
        assert(n1 =~= (p + n1).subrange(p.len() as int, (p + n1).len() as int));
        assert(n2 =~= (p + n2).subrange(p.len() as int, (p + n2).len() as int));
        reveal_strlit(".jpg");
        let l1 = decimal(k1 as nat).len();
        let l2 = decimal(k2 as nat).len();
        assert(n1.len() == l1 + 4);
        assert(n2.len() == l2 + 4);
        assert(decimal(k1 as nat) =~= n1.subrange(0, l1 as int));
        assert(decimal(k2 as nat) =~= n2.subrange(0, l2 as int));
        lemma_decimal_injective(k1 as nat, k2 as nat);
    }
}

} // verus!
