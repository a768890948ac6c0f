//! OpenSubtitles: the answer records of its search API, what the library
//! keeps of them, the queries it sends, and the steps of a subtitle download.
//! The requests themselves are the caller's part.

use vstd::prelude::*;
use crate::enricher::known_year;
use crate::hash::VideoHash;
use crate::movie::{MovieObject, MovieView};
use crate::paths::{file_stem, file_stem_exec, with_extension, with_extension_exec};
use crate::text::{
    chars_of, concat, decimal, i32_decimal, pairs_view, signed_decimal, string_of, u64_decimal,
};

verus! {

/// A subtitle file of a search answer.
pub struct SubtitleFile {
    pub file_name: Option<String>,
    pub file_id: Option<u64>,
}

/// The attributes of a search answer item.
pub struct SubtitleAttributes {
    pub language: String,
    pub release: Option<String>,
    pub download_count: Option<u64>,
    pub new_download_count: Option<u64>,
    pub files: Vec<SubtitleFile>,
}

/// One item of a search answer.
pub struct SubtitleData {
    pub id: String,
    pub attributes: SubtitleAttributes,
}

/// A search answer.
pub struct SubtitlesSearchResponse {
    pub data: Vec<SubtitleData>,
}

/// A subtitle that can be downloaded.
pub struct SubtitleResult {
    pub id: String,
    pub language: String,
    pub filename: String,
    pub download_url: String,
}

/// A `SubtitleResult` as text values: identifier, language, file name and
/// download URL.
pub open spec fn result_view(r: SubtitleResult) -> (Seq<char>, Seq<char>, Seq<char>, Seq<char>) {
    (r.id@, r.language@, r.filename@, r.download_url@)
}

/// The download endpoint of a file.
pub open spec fn download_url_for(file_id: u64) -> Seq<char> {
    "https://api.opensubtitles.com/api/v1/download/"@ + decimal(file_id as nat)
}

/// What an answer item gives: taken from its first file, which must have an
/// identifier; the file name defaults to `subtitle_{id}.srt`.
pub open spec fn result_of(d: SubtitleData) -> Option<(Seq<char>, Seq<char>, Seq<char>, Seq<char>)> {
    if d.attributes.files@.len() > 0 && d.attributes.files@[0].file_id is Some {
        let f = d.attributes.files@[0];
        let k = f.file_id->0;
        Some(
            (
                d.id@,
                d.attributes.language@,
                match f.file_name {
                    Some(n) => n@,
                    None => "subtitle_"@ + decimal(k as nat) + ".srt"@,
                },
                download_url_for(k),
            ),
        )
    } else {
        None
    }
}

/// The results of the answer items, in order, without the items that give
/// none.
pub open spec fn results_of(s: Seq<SubtitleData>) -> Seq<(Seq<char>, Seq<char>, Seq<char>, Seq<char>)>
    decreases s.len(),
{
    if s.len() == 0 {
        Seq::empty()
    } else {
        match result_of(s.last()) {
            Some(x) => results_of(s.drop_last()).push(x),
            None => results_of(s.drop_last()),
        }
    }
}

fn result_of_exec(d: &SubtitleData) -> (r: Option<SubtitleResult>)
    ensures
        match r {
            Some(x) => result_of(*d) == Some(result_view(x)),
            None => result_of(*d) is None,
        },
{
    if d.attributes.files.len() == 0 {
        return None;
    }
    let f = &d.attributes.files[0];
    let k = match f.file_id {
        Some(k) => k,
        None => {
            return None;
        },
    };
    proof {
        reveal_strlit("subtitle_");
        reveal_strlit(".srt");
        reveal_strlit("https://api.opensubtitles.com/api/v1/download/");
    }
    let number = u64_decimal(k);
    let filename = match &f.file_name {
        Some(n) => n.clone(),
        None => concat(concat("subtitle_", number.as_str()).as_str(), ".srt"),
    };
    let url = concat("https://api.opensubtitles.com/api/v1/download/", number.as_str());
    Some(SubtitleResult { id: d.id.clone(), language: d.attributes.language.clone(), filename, download_url: url })
}

/// The downloadable subtitles of a search answer.
pub fn map_results(data: &Vec<SubtitleData>) -> (r: Vec<SubtitleResult>)
    ensures
        r@.map_values(|x: SubtitleResult| result_view(x)) == results_of(data@),
{
    let mut r: Vec<SubtitleResult> = Vec::new();
    let mut i: usize = 0;
    while i < data.len()
        invariant
            i <= data@.len(),
            r@.map_values(|x: SubtitleResult| result_view(x)) == results_of(data@.subrange(0, i as int)),
        decreases data.len() - i,
    {
        let ghost before = r@;
        assert(data@.subrange(0, i + 1).drop_last() =~= data@.subrange(0, i as int));
        match result_of_exec(&data[i]) {
            Some(x) => {
                let ghost xv = result_view(x);
                r.push(x);
                assert(r@.map_values(|x: SubtitleResult| result_view(x)) =~= before.map_values(
                    |x: SubtitleResult| result_view(x),
                ).push(xv));
            },
            None => {},
        }
        i = i + 1;
    }
    assert(data@.subrange(0, data@.len() as int) =~= data@);
    r
}

/// Query of a search by file hash.
pub open spec fn hash_query_for(hash: Seq<char>, size: u64, language: Seq<char>) -> Seq<(Seq<char>, Seq<char>)> {
    seq![("moviehash"@, hash), ("moviebytesize"@, decimal(size as nat)), ("languages"@, language)]
}

/// Query of a search by name; the year only when there is one.
pub open spec fn name_query_for(query: Seq<char>, language: Seq<char>, year: Option<i32>) -> Seq<(Seq<char>, Seq<char>)> {
    let base = seq![("query"@, query), ("languages"@, language)];
    match year {
        Some(y) => base.push(("year"@, signed_decimal(y as int))),
        None => base,
    }
}

/// The query parameters of a search by hash.
pub fn hash_query(hash: &VideoHash, language: &str) -> (r: Vec<(String, String)>)
    ensures
        pairs_view(r@) == hash_query_for(hash.hash@, hash.size, language@),
{
    let mut r: Vec<(String, String)> = Vec::new();
    r.push(("moviehash".to_owned(), hash.hash.clone()));
    r.push(("moviebytesize".to_owned(), u64_decimal(hash.size)));
    r.push(("languages".to_owned(), language.to_owned()));
    assert(pairs_view(r@) =~= hash_query_for(hash.hash@, hash.size, language@));
    r
}

/// The query parameters of a search by name.
pub fn name_query(query: &str, language: &str, year: Option<i32>) -> (r: Vec<(String, String)>)
    ensures
        pairs_view(r@) == name_query_for(query@, language@, year),
{
    let mut r: Vec<(String, String)> = Vec::new();
    r.push(("query".to_owned(), query.to_owned()));
    r.push(("languages".to_owned(), language.to_owned()));
    if let Some(y) = year {
        r.push(("year".to_owned(), i32_decimal(y)));
    }
    assert(pairs_view(r@) =~= name_query_for(query@, language@, year));
    r
}

/// The text to search subtitles by: the movie's title, or, when it has none,
/// the stem of its file name (empty when there is none).
pub open spec fn query_for(title: Seq<char>, video_path: Seq<char>) -> Seq<char> {
    if title.len() > 0 {
        title
    } else {
        match file_stem(video_path) {
            Some(s) => s,
            None => Seq::empty(),
        }
    }
}

/// Where a subtitle in `language` is saved: beside the video, as
/// `{stem}.{language}.srt`.
pub open spec fn subtitle_target(video_path: Seq<char>, language: Seq<char>) -> Seq<char> {
    with_extension(video_path, language + ".srt"@)
}

/// The file a downloaded subtitle is saved to.
pub fn subtitle_path_for(video_path: &str, language: &str) -> (r: String)
    ensures
        r@ == subtitle_target(video_path@, language@),
{
    proof {
        reveal_strlit(".srt");
    }
    let ext = concat(language, ".srt");
    string_of(&with_extension_exec(&chars_of(video_path), &chars_of(ext.as_str())))
}

/// The search text for a movie.
pub fn subtitle_query(title: &str, video_path: &str) -> (r: String)
    ensures
        r@ == query_for(title@, video_path@),
{
    if !title.is_empty() {
        title.to_owned()
    } else {
        match file_stem_exec(&chars_of(video_path)) {
            Some(s) => string_of(&s),
            None => String::new(),
        }
    }
}

/// Where a subtitle download stands.
#[derive(Debug, Clone, Copy, PartialEq, Eq, Structural)]
pub enum SearchStage {
    Start,
    Hashing,
    ByHash,
    ByName,
    Saving,
    Over,
}

/// What the caller does next in a subtitle download.
pub enum SubtitleAction {
    /// Compute the OpenSubtitles hash of the video file.
    ComputeHash,
    /// Search by that hash (see `hash_query`).
    SearchByHash,
    /// Search by name (see `name_query`).
    SearchByName { query: String, year: Option<i32> },
    /// Download this subtitle and write it to `target`.
    Download { download_url: String, target: String },
    /// Done: the file the subtitle was saved to, if one was.
    Finish(Option<String>),
}

/// A subtitle download for one movie in one language: search by file hash,
/// by name when the hash cannot be computed or finds nothing, then download
/// the first result beside the video.
pub struct SubtitleSearch {
    video_path: String,
    title: String,
    year: i32,
    language: String,
    stage: SearchStage,
}

impl SubtitleSearch {
    pub closed spec fn video_path(&self) -> Seq<char> {
        self.video_path@
    }

    pub closed spec fn title(&self) -> Seq<char> {
        self.title@
    }

    pub closed spec fn year(&self) -> i32 {
        self.year
    }

    pub closed spec fn language(&self) -> Seq<char> {
        self.language@
    }

    pub closed spec fn stage(&self) -> SearchStage {
        self.stage
    }

    /// The search by name that this download sends.
    pub open spec fn name_search(&self, a: SubtitleAction) -> bool {
        a matches SubtitleAction::SearchByName { query, year } && query@ == query_for(
            self.title(),
            self.video_path(),
        ) && year == known_year(self.year())
    }

    /// The download of the first result.
    pub open spec fn first_download(&self, a: SubtitleAction, results: Seq<SubtitleResult>) -> bool {
        a matches SubtitleAction::Download { download_url, target } && download_url@
            == results[0].download_url@ && target@ == subtitle_target(
            self.video_path(),
            self.language(),
        )
    }

    pub fn new(video_path: &str, title: &str, year: i32, language: &str) -> (s: SubtitleSearch)
        ensures
            s.video_path() == video_path@,
            s.title() == title@,
            s.year() == year,
            s.language() == language@,
            s.stage() == SearchStage::Start,
    {
        SubtitleSearch {
            video_path: video_path.to_owned(),
            title: title.to_owned(),
            year,
            language: language.to_owned(),
            stage: SearchStage::Start,
        }
    }

    /// The first step: nothing to do for a movie without a file, otherwise
    /// hash the file.
    pub fn start(&mut self) -> (a: SubtitleAction)
        requires
            old(self).stage() == SearchStage::Start,
        ensures
            final(self).video_path() == old(self).video_path(),
            final(self).title() == old(self).title(),
            final(self).year() == old(self).year(),
            final(self).language() == old(self).language(),
            old(self).video_path().len() == 0 ==> (a matches SubtitleAction::Finish(None)
                && final(self).stage() == SearchStage::Over),
            old(self).video_path().len() > 0 ==> a is ComputeHash && final(self).stage()
                == SearchStage::Hashing,
    {
        if self.video_path.as_str().is_empty() {
            self.stage = SearchStage::Over;
            SubtitleAction::Finish(None)
        } else {
            self.stage = SearchStage::Hashing;
            SubtitleAction::ComputeHash
        }
    }

    fn name_search_exec(&self) -> (a: SubtitleAction)
        ensures
            self.name_search(a),
    {
        SubtitleAction::SearchByName {
            query: subtitle_query(self.title.as_str(), self.video_path.as_str()),
            year: crate::enricher::limited_year(self.year),
        }
    }

    /// The hash was computed (`computed`) or could not be.
    pub fn on_hash(&mut self, computed: bool) -> (a: SubtitleAction)
        requires
            old(self).stage() == SearchStage::Hashing,
        ensures
            final(self).video_path() == old(self).video_path(),
            final(self).title() == old(self).title(),
            final(self).year() == old(self).year(),
            final(self).language() == old(self).language(),
            computed ==> a is SearchByHash && final(self).stage() == SearchStage::ByHash,
            !computed ==> old(self).name_search(a) && final(self).stage() == SearchStage::ByName,
    {
        if computed {
            self.stage = SearchStage::ByHash;
            SubtitleAction::SearchByHash
        } else {
            self.stage = SearchStage::ByName;
            self.name_search_exec()
        }
    }

    /// The results of the search that was out.
    pub fn on_results(&mut self, results: &Vec<SubtitleResult>) -> (a: SubtitleAction)
        requires
            old(self).stage() == SearchStage::ByHash || old(self).stage() == SearchStage::ByName,
        ensures
            final(self).video_path() == old(self).video_path(),
            final(self).title() == old(self).title(),
            final(self).year() == old(self).year(),
            final(self).language() == old(self).language(),
            results@.len() > 0 ==> old(self).first_download(a, results@) && final(self).stage()
                == SearchStage::Saving,
            results@.len() == 0 && old(self).stage() == SearchStage::ByHash ==> old(
                self,
            ).name_search(a) && final(self).stage() == SearchStage::ByName,
            results@.len() == 0 && old(self).stage() == SearchStage::ByName ==> (
            a matches SubtitleAction::Finish(None) && final(self).stage() == SearchStage::Over),
    {
        if results.len() > 0 {
            self.stage = SearchStage::Saving;
            SubtitleAction::Download {
                download_url: results[0].download_url.clone(),
                target: subtitle_path_for(self.video_path.as_str(), self.language.as_str()),
            }
        } else if self.stage == SearchStage::ByHash {
            self.stage = SearchStage::ByName;
            self.name_search_exec()
        } else {
            self.stage = SearchStage::Over;
            SubtitleAction::Finish(None)
        }
    }

    /// The subtitle was written to the target file: the movie's subtitles
    /// are ready.
    pub fn on_saved(&mut self, movie: &mut MovieObject) -> (a: SubtitleAction)
        requires
            old(self).stage() == SearchStage::Saving,
        ensures
            final(self).stage() == SearchStage::Over,
            a matches SubtitleAction::Finish(Some(p)) && p@ == subtitle_target(
                old(self).video_path(),
                old(self).language(),
            ),
            final(movie)@ == (MovieView { subtitles_ready: true, ..old(movie)@ }),
    {
        self.stage = SearchStage::Over;
        movie.set_subtitles_ready(true);
        SubtitleAction::Finish(Some(subtitle_path_for(self.video_path.as_str(), self.language.as_str())))
    }
}

} // verus!
