//! Which files of a walked directory tree are movies.

use vstd::prelude::*;
use crate::paths::{extension, extension_exec};
use crate::text::{chars_equal, chars_of, string_of, to_lowercase, unicode_lowercase};

verus! {

/// Scan result of one video file.
#[derive(Debug, Clone)]
pub struct ScanResult {
    /// Path of the video file.
    pub path: String,
    /// File name (without the directories).
    pub filename: String,
    /// Extension, lower case, without the dot.
    pub extension: String,
}

/// One entry of a recursive directory walk.
#[derive(Debug, Clone)]
pub struct WalkEntry {
    pub path: String,
    pub file_name: String,
    pub is_file: bool,
}

/// Scans the configured directories for video files.
pub struct Scanner {
    directories: Vec<String>,
}

/// Whether a lower-cased extension is one of the recognised video formats.
pub open spec fn is_video_extension_lower(e: Seq<char>) -> bool {
    ||| e == "mp4"@
    ||| e == "mkv"@
    ||| e == "avi"@
    ||| e == "mov"@
    ||| e == "webm"@
    ||| e == "m4v"@
    ||| e == "wmv"@
}

/// Whether a path names a video file: its extension, lower-cased, is a
/// recognised video format.
pub open spec fn is_video_path(p: Seq<char>) -> bool {
    match extension(p) {
        Some(e) => is_video_extension_lower(unicode_lowercase(e)),
        None => false,
    }
}

/// The lower-cased extension of a path, or nothing.
pub open spec fn lower_extension(p: Seq<char>) -> Seq<char> {
    match extension(p) {
        Some(e) => unicode_lowercase(e),
        None => Seq::empty(),
    }
}

pub open spec fn keeps(e: WalkEntry) -> bool {
    e.is_file && is_video_path(e.path@)
}

/// The entries among the first `n` that are video files, in walk order.
pub open spec fn video_entries(entries: Seq<WalkEntry>, n: int) -> Seq<WalkEntry>
    decreases n,
{
    if n <= 0 || n > entries.len() {
        Seq::empty()
    } else if keeps(entries[n - 1]) {
        video_entries(entries, n - 1).push(entries[n - 1])
    } else {
        video_entries(entries, n - 1)
    }
}

fn lower_extension_exec(path: &str) -> (r: (bool, String))
    ensures
        r.0 == is_video_path(path@),
        r.1@ == lower_extension(path@),
{
    let p = chars_of(path);
    match extension_exec(&p) {
        Some(e) => {
            let es = string_of(&e);
            let lower = to_lowercase(es.as_str());
            let l = chars_of(lower.as_str());
            let ok = chars_equal(&l, &chars_of("mp4")) || chars_equal(&l, &chars_of("mkv"))
                || chars_equal(&l, &chars_of("avi")) || chars_equal(&l, &chars_of("mov"))
                || chars_equal(&l, &chars_of("webm")) || chars_equal(&l, &chars_of("m4v"))
                || chars_equal(&l, &chars_of("wmv"));
            (ok, lower)
        },
        None => (false, String::new()),
    }
}

/// Whether `path` names a video file by its extension.
pub fn is_video_file_path(path: &str) -> (r: bool)
    ensures
        r == is_video_path(path@),
{
    lower_extension_exec(path).0
}

impl Scanner {
    /// A scanner for the given directories.
    pub fn new(directories: Vec<String>) -> (s: Scanner)
        ensures
            s.directories() == directories,
    {
        Scanner { directories }
    }

    pub closed spec fn directories(&self) -> Vec<String> {
        self.directories
    }

    /// The directories to walk, in order.
    pub fn directory_list(&self) -> (r: &Vec<String>)
        ensures
            *r == self.directories(),
    {
        &self.directories
    }

    /// The video files among walked entries, in walk order: regular files
    /// whose extension, lower-cased, is a recognised video format.
    pub fn scan_entries(&self, entries: &Vec<WalkEntry>) -> (r: Vec<ScanResult>)
        ensures
            r@.len() == video_entries(entries@, entries@.len() as int).len(),
            forall|i: int|
                0 <= i < r@.len() ==> {
                    let e = #[trigger] video_entries(entries@, entries@.len() as int)[i];
                    &&& r@[i].path@ == e.path@
                    &&& r@[i].filename@ == e.file_name@
                    &&& r@[i].extension@ == lower_extension(e.path@)
                },
    {
        let mut out: Vec<ScanResult> = Vec::new();
        let mut i: usize = 0;
        while i < entries.len()
            invariant
                i <= entries@.len(),
                out@.len() == video_entries(entries@, i as int).len(),
                forall|k: int|
                    0 <= k < out@.len() ==> {
                        let e = #[trigger] video_entries(entries@, i as int)[k];
                        &&& out@[k].path@ == e.path@
                        &&& out@[k].filename@ == e.file_name@
                        &&& out@[k].extension@ == lower_extension(e.path@)
                    },
            decreases entries.len() - i,
        {
            let e = &entries[i];
            if e.is_file {
                let (ok, ext) = lower_extension_exec(e.path.as_str());
                if ok {
                    out.push(
                        ScanResult {
                            path: e.path.clone(),
                            filename: e.file_name.clone(),
                            extension: ext,
                        },
                    );
                }
            }
            i = i + 1;
        }
        out
    }
}

/// Paths of the video files of a walked directory, in walk order.
pub fn scan_directory(path: &str, entries: &Vec<WalkEntry>) -> (r: Vec<String>)
    ensures
        r@.len() == video_entries(entries@, entries@.len() as int).len(),
        forall|i: int|
            0 <= i < r@.len() ==> r@[i]@ == (#[trigger] video_entries(
                entries@,
                entries@.len() as int,
            )[i]).path@,
{
    let mut dirs: Vec<String> = Vec::new();
    dirs.push(string_of(&chars_of(path)));
    let scanner = Scanner::new(dirs);
    let found = scanner.scan_entries(entries);
    let mut out: Vec<String> = Vec::new();
    let mut i: usize = 0;
    while i < found.len()
        invariant
            i <= found@.len(),
            out@.len() == i,
            forall|k: int| 0 <= k < i ==> out@[k]@ == found@[k].path@,
        decreases found.len() - i,
    {
        out.push(found[i].path.clone());
        i = i + 1;
    }
    out
}

/// Every entry a scan keeps is a regular file with a video extension, and
/// every such entry is kept: nothing else is, and none is lost.
pub proof fn law_scan_keeps_exactly_videos(entries: Seq<WalkEntry>, n: int)
    requires
        0 <= n <= entries.len(),
    ensures
        forall|i: int| 0 <= i < video_entries(entries, n).len() ==> keeps(#[trigger] video_entries(entries, n)[i]),
        forall|k: int| 0 <= k < n && keeps(#[trigger] entries[k]) ==> video_entries(entries, n).contains(entries[k]),
    decreases n,
{
    if n > 0 {
        law_scan_keeps_exactly_videos(entries, n - 1);
        let prev = video_entries(entries, n - 1);
        if keeps(entries[n - 1]) {
            assert(video_entries(entries, n) == prev.push(entries[n - 1]));
            assert forall|k: int| 0 <= k < n && keeps(#[trigger] entries[k]) implies video_entries(entries, n).contains(entries[k]) by {
                if k < n - 1 {
                    let m = choose|m: int| 0 <= m < prev.len() && prev[m] == entries[k];
                    assert(prev.push(entries[n - 1])[m] == entries[k]);
                } else {
                    assert(prev.push(entries[n - 1])[prev.len() as int] == entries[k]);
                }
            }
        }
    }
}

} // verus!
