//! Subtitle files that lie beside a video: which names count, which
//! language each is in, which one to show first, and how the menu names
//! them. Whether a file exists and what a directory holds is asked by the
//! caller, which hands the answers in.

use vstd::prelude::*;
use crate::paths::{file_name, file_name_exec, join, join_exec};
use crate::strings::{occurs_at, occurs_at_exec};
use crate::text::{chars_equal, chars_of, slice_chars, string_of};

verus! {

/// Strings as texts.
pub open spec fn texts(v: Seq<String>) -> Seq<Seq<char>> {
    v.map_values(|s: String| s@)
}

/// The subtitle languages the application offers, in menu order.
pub open spec fn language_codes() -> Seq<Seq<char>> {
    seq!["es"@, "en"@, "fr"@, "pt"@, "de"@, "it"@]
}

fn language_codes_exec() -> (r: Vec<String>)
    ensures
        r@.len() == 6,
        texts(r@) == language_codes(),
{
    let mut r: Vec<String> = Vec::new();
    r.push("es".to_owned());
    r.push("en".to_owned());
    r.push("fr".to_owned());
    r.push("pt".to_owned());
    r.push("de".to_owned());
    r.push("it".to_owned());
    assert(texts(r@) =~= language_codes());
    r
}

/// The language code at a position of `language_codes`.
pub fn language_code_at(i: usize) -> (r: Option<String>)
    ensures
        match r {
            Some(c) => i < 6 && c@ == language_codes()[i as int],
            None => i >= 6,
        },
{
    let codes = language_codes_exec();
    if i < codes.len() {
        assert(texts(codes@)[i as int] == codes@[i as int]@);
        Some(codes[i].clone())
    } else {
        None
    }
}

/// Position of a language code in `language_codes`, if it is there.
pub fn language_index(code: &str) -> (r: Option<usize>)
    ensures
        match r {
            Some(i) => i < 6 && language_codes()[i as int] == code@ && forall|k: int|
                0 <= k < i ==> language_codes()[k] != code@,
            None => forall|k: int| 0 <= k < 6 ==> language_codes()[k] != code@,
        },
{
    let codes = language_codes_exec();
    let c = chars_of(code);
    let mut i: usize = 0;
    while i < codes.len()
        invariant
            i <= codes@.len(),
            codes@.len() == 6,
            texts(codes@) == language_codes(),
            c@ == code@,
            forall|k: int| 0 <= k < i ==> language_codes()[k] != code@,
        decreases codes.len() - i,
    {
        assert(texts(codes@)[i as int] == codes@[i as int]@);
        if chars_equal(&chars_of(codes[i].as_str()), &c) {
            return Some(i);
        }
        i = i + 1;
    }
    None
}

pub open spec fn starts_with(s: Seq<char>, p: Seq<char>) -> bool {
    occurs_at(s, p, 0)
}

pub open spec fn ends_with(s: Seq<char>, p: Seq<char>) -> bool {
    p.len() <= s.len() && occurs_at(s, p, s.len() - p.len())
}

fn starts_with_exec(s: &[char], p: &[char]) -> (r: bool)
    ensures
        r == starts_with(s@, p@),
{
    occurs_at_exec(s, p, 0)
}

fn ends_with_exec(s: &[char], p: &[char]) -> (r: bool)
    ensures
        r == ends_with(s@, p@),
{
    if p.len() > s.len() {
        false
    } else {
        occurs_at_exec(s, p, s.len() - p.len())
    }
}

/// `{base}.{code}.srt`.
pub open spec fn srt_name(base: Seq<char>, code: Seq<char>) -> Seq<char> {
    base + "."@ + code + ".srt"@
}

/// The files looked for first, for each known language in order: the video
/// stem with the language code, then the movie title with it (when there is
/// a title); each with its code.
pub open spec fn known_candidates(dir: Seq<char>, stem: Seq<char>, title: Seq<char>, n: int) -> Seq<(Seq<char>, Seq<char>)>
    decreases n,
{
    if n <= 0 {
        Seq::empty()
    } else {
        let code = language_codes()[n - 1];
        let with_stem = known_candidates(dir, stem, title, n - 1).push((join(dir, srt_name(stem, code)), code));
        if title.len() > 0 {
            with_stem.push((join(dir, srt_name(title, code)), code))
        } else {
            with_stem
        }
    }
}

fn srt_name_exec(base: &[char], code: &[char]) -> (r: Vec<char>)
    ensures
        r@ == srt_name(base@, code@),
{
    let mut r = slice_chars(base, 0, base.len());
    crate::paths::append_chars(&mut r, &['.']);
    crate::paths::append_chars(&mut r, code);
    crate::paths::append_chars(&mut r, &['.', 's', 'r', 't']);
    proof {
        reveal_strlit(".");
        reveal_strlit(".srt");
    }
    assert(base@.subrange(0, base@.len() as int) =~= base@);
    assert(r@ =~= srt_name(base@, code@));
    r
}

/// The files to look for first, with their language codes.
pub fn subtitle_candidates(dir: &str, stem: &str, title: &str) -> (r: Vec<(String, String)>)
    ensures
        r@.map_values(|p: (String, String)| (p.0@, p.1@)) == known_candidates(dir@, stem@, title@, 6),
{
    let codes = language_codes_exec();
    let d = chars_of(dir);
    let s = chars_of(stem);
    let t = chars_of(title);
    let mut r: Vec<(String, String)> = Vec::new();
    let mut i: usize = 0;
    while i < codes.len()
        invariant
            i <= codes@.len(),
            codes@.len() == 6,
            texts(codes@) == language_codes(),
            d@ == dir@,
            s@ == stem@,
            t@ == title@,
            r@.map_values(|p: (String, String)| (p.0@, p.1@)) == known_candidates(dir@, stem@, title@, i as int),
        decreases codes.len() - i,
    {
        assert(texts(codes@)[i as int] == codes@[i as int]@);
        let code = chars_of(codes[i].as_str());
        let ghost before = r@.map_values(|p: (String, String)| (p.0@, p.1@));
        let p1 = string_of(&join_exec(&d, &srt_name_exec(&s, &code)));
        r.push((p1, codes[i].clone()));
        if !title.is_empty() {
            let p2 = string_of(&join_exec(&d, &srt_name_exec(&t, &code)));
            r.push((p2, codes[i].clone()));
        }
        assert(r@.map_values(|p: (String, String)| (p.0@, p.1@)) =~= known_candidates(dir@, stem@, title@, i + 1));
        i = i + 1;
    }
    r
}

/// Whether a file name belongs to the video: an `.srt` file named after the
/// stem or the title, with or without something between (`{stem}.srt`,
/// `{stem}.{anything}`, and the same with the title).
pub open spec fn belongs(name: Seq<char>, stem: Seq<char>, title: Seq<char>) -> bool {
    ends_with(name, ".srt"@) && (matches_base(name, stem) || (title.len() > 0 && matches_base(name, title)))
}

pub open spec fn matches_base(name: Seq<char>, base: Seq<char>) -> bool {
    starts_with(name, base + "."@) || name == base + ".srt"@
}

/// The language code a matching name carries: none for the file named
/// exactly after the stem or the title (`{stem}.srt`); otherwise what follows
/// the title's (or else the stem's) prefix and a dot, without a final
/// `.srt`; none when the name has no such prefix or nothing follows it.
pub open spec fn code_of(name: Seq<char>, stem: Seq<char>, title: Seq<char>) -> Option<Seq<char>> {
    let title_prefix = title + "."@;
    let stem_prefix = stem + "."@;
    let prefix = if name == stem + ".srt"@ || (title.len() > 0 && name == title + ".srt"@) {
        Seq::empty()
    } else if title.len() > 0 && matches_base(name, title) && starts_with(name, title_prefix) {
        title_prefix
    } else if matches_base(name, stem) && starts_with(name, stem_prefix) {
        stem_prefix
    } else {
        Seq::empty()
    };
    if prefix.len() == 0 {
        None
    } else {
        let middle = name.subrange(prefix.len() as int, name.len() as int);
        let extracted = if ends_with(middle, ".srt"@) {
            middle.subrange(0, middle.len() - 4)
        } else {
            middle
        };
        if extracted.len() == 0 {
            None
        } else {
            Some(extracted)
        }
    }
}

fn dotted(base: &[char]) -> (r: Vec<char>)
    ensures
        r@ == base@ + "."@,
{
    let mut r = slice_chars(base, 0, base.len());
    crate::paths::append_chars(&mut r, &['.']);
    proof {
        reveal_strlit(".");
    }
    assert(base@.subrange(0, base@.len() as int) =~= base@);
    assert(r@ =~= base@ + "."@);
    r
}

fn srt_suffix() -> (r: Vec<char>)
    ensures
        r@ == ".srt"@,
{
    proof {
        reveal_strlit(".srt");
    }
    let mut r: Vec<char> = Vec::new();
    r.push('.');
    r.push('s');
    r.push('r');
    r.push('t');
    assert(r@ =~= ".srt"@);
    r
}

fn matches_base_exec(name: &[char], base: &[char]) -> (r: bool)
    ensures
        r == matches_base(name@, base@),
{
    let mut whole = slice_chars(base, 0, base.len());
    crate::paths::append_chars(&mut whole, &srt_suffix());
    assert(base@.subrange(0, base@.len() as int) =~= base@);
    starts_with_exec(name, &dotted(base)) || chars_equal(name, &whole)
}

fn belongs_exec(name: &[char], stem: &[char], title: &[char]) -> (r: bool)
    ensures
        r == belongs(name@, stem@, title@),
{
    ends_with_exec(name, &srt_suffix()) && (matches_base_exec(name, stem) || (title.len() > 0
        && matches_base_exec(name, title)))
}

fn code_of_exec(name: &[char], stem: &[char], title: &[char]) -> (r: Option<String>)
    ensures
        match r {
            Some(c) => code_of(name@, stem@, title@) == Some(c@),
            None => code_of(name@, stem@, title@) is None,
        },
{
    proof {
        reveal_strlit(".srt");
    }
    let title_prefix = dotted(title);
    let stem_prefix = dotted(stem);
    let mut stem_whole = slice_chars(stem, 0, stem.len());
    crate::paths::append_chars(&mut stem_whole, &srt_suffix());
    let mut title_whole = slice_chars(title, 0, title.len());
    crate::paths::append_chars(&mut title_whole, &srt_suffix());
    assert(stem@.subrange(0, stem@.len() as int) =~= stem@);
    assert(title@.subrange(0, title@.len() as int) =~= title@);
    let exact = chars_equal(name, &stem_whole) || (title.len() > 0 && chars_equal(name, &title_whole));
    let prefix: Vec<char> = if exact {
        Vec::new()
    } else if title.len() > 0 && matches_base_exec(name, title) && starts_with_exec(name, &title_prefix) {
        title_prefix
    } else if matches_base_exec(name, stem) && starts_with_exec(name, &stem_prefix) {
        stem_prefix
    } else {
        Vec::new()
    };
    if prefix.len() == 0 {
        assert(prefix@ =~= Seq::<char>::empty());
        return None;
    }
    let middle = slice_chars(name, prefix.len(), name.len());
    let extracted = if ends_with_exec(&middle, &srt_suffix()) {
        slice_chars(&middle, 0, middle.len() - 4)
    } else {
        middle
    };
    if extracted.len() == 0 {
        None
    } else {
        Some(string_of(&extracted))
    }
}

/// A subtitle file found beside a video.
pub struct LocalSubtitle {
    /// Full path of the file.
    pub path: String,
    /// Its file name, to show.
    pub filename: String,
    /// The language code its name carries, if any.
    pub language_code: Option<String>,
}

pub open spec fn views(v: Seq<LocalSubtitle>) -> Seq<(Seq<char>, Seq<char>, Option<Seq<char>>)> {
    v.map_values(|l: LocalSubtitle| local_view(l))
}

pub open spec fn local_view(l: LocalSubtitle) -> (Seq<char>, Seq<char>, Option<Seq<char>>) {
    (
        l.path@,
        l.filename@,
        match l.language_code {
            Some(c) => Some(c@),
            None => None,
        },
    )
}

/// The candidates that exist (`present[i]` for candidate `i`), as found
/// files.
pub open spec fn present_candidates(c: Seq<(Seq<char>, Seq<char>)>, present: Seq<bool>, n: int) -> Seq<(Seq<char>, Seq<char>, Option<Seq<char>>)>
    decreases n,
{
    if n <= 0 {
        Seq::empty()
    } else {
        let rest = present_candidates(c, present, n - 1);
        if n - 1 < present.len() && present[n - 1] {
            rest.push(
                (
                    c[n - 1].0,
                    match file_name(c[n - 1].0) {
                        Some(f) => f,
                        None => Seq::empty(),
                    },
                    Some(c[n - 1].1),
                ),
            )
        } else {
            rest
        }
    }
}

/// The directory entries that belong to the video, as found files.
pub open spec fn listed_files(dir: Seq<char>, names: Seq<Seq<char>>, stem: Seq<char>, title: Seq<char>, n: int) -> Seq<(Seq<char>, Seq<char>, Option<Seq<char>>)>
    decreases n,
{
    if n <= 0 {
        Seq::empty()
    } else {
        let rest = listed_files(dir, names, stem, title, n - 1);
        let name = names[n - 1];
        if belongs(name, stem, title) {
            rest.push((join(dir, name), name, code_of(name, stem, title)))
        } else {
            rest
        }
    }
}

/// Each path once, at its first place.
pub open spec fn dedup_paths(s: Seq<(Seq<char>, Seq<char>, Option<Seq<char>>)>) -> Seq<(Seq<char>, Seq<char>, Option<Seq<char>>)>
    decreases s.len(),
{
    if s.len() == 0 {
        Seq::empty()
    } else {
        let d = dedup_paths(s.drop_last());
        if exists|k: int| 0 <= k < d.len() && (#[trigger] d[k]).0 == s.last().0 {
            d
        } else {
            d.push(s.last())
        }
    }
}

/// The subtitle files of a video in `dir`: first the known-language
/// candidates that exist, then the other matching entries of the
/// directory, each path once.
pub open spec fn found_subtitles(
    dir: Seq<char>,
    stem: Seq<char>,
    title: Seq<char>,
    present: Seq<bool>,
    names: Seq<Seq<char>>,
) -> Seq<(Seq<char>, Seq<char>, Option<Seq<char>>)> {
    let c = known_candidates(dir, stem, title, 6);
    dedup_paths(present_candidates(c, present, c.len() as int) + listed_files(dir, names, stem, title, names.len() as int))
}

fn has_path(v: &Vec<LocalSubtitle>, p: &[char]) -> (r: bool)
    ensures
        r == exists|k: int| 0 <= k < v@.len() && (#[trigger] v@[k]).path@ == p@,
{
    let mut i: usize = 0;
    while i < v.len()
        invariant
            i <= v@.len(),
            forall|k: int| 0 <= k < i ==> (#[trigger] v@[k]).path@ != p@,
        decreases v.len() - i,
    {
        if chars_equal(&chars_of(v[i].path.as_str()), p) {
            return true;
        }
        i = i + 1;
    }
    false
}

fn push_unique(v: &mut Vec<LocalSubtitle>, item: LocalSubtitle)
    ensures
        views(final(v)@) == (if exists|k: int|
            0 <= k < views(old(v)@).len() && (#[trigger] views(old(v)@)[k]).0 == local_view(item).0 {
            views(old(v)@)
        } else {
            views(old(v)@).push(local_view(item))
        }),
{
    let ghost ov = views(v@);
    let found = has_path(v, &chars_of(item.path.as_str()));
    proof {
        if found {
            let k = choose|k: int| 0 <= k < v@.len() && (#[trigger] v@[k]).path@ == item.path@;
            assert(ov[k].0 == local_view(item).0);
        } else {
            assert forall|k: int| 0 <= k < ov.len() implies (#[trigger] ov[k]).0 != local_view(item).0 by {
                assert(ov[k].0 == v@[k].path@);
            }
        }
    }
    if !found {
        let ghost iv = local_view(item);
        v.push(item);
        assert(views(v@) =~= ov.push(iv));
    }
}

proof fn lemma_dedup_push(s: Seq<(Seq<char>, Seq<char>, Option<Seq<char>>)>, x: (Seq<char>, Seq<char>, Option<Seq<char>>))
    ensures
        dedup_paths(s.push(x)) == (if exists|k: int| 0 <= k < dedup_paths(s).len() && (#[trigger] dedup_paths(s)[k]).0 == x.0 {
            dedup_paths(s)
        } else {
            dedup_paths(s).push(x)
        }),
{
    assert(s.push(x).drop_last() =~= s);
}

/// The subtitle files found beside a video. `dir` is the video's directory,
/// `stem` its file stem, `title` the movie title; `present[i]` tells whether
/// the `i`-th file of `subtitle_candidates` exists, and `names` are the
/// entries of the directory.
pub fn scan_subtitle_files(
    dir: &str,
    stem: &str,
    title: &str,
    present: &Vec<bool>,
    names: &Vec<String>,
) -> (r: Vec<LocalSubtitle>)
    ensures
        views(r@) == found_subtitles(
            dir@,
            stem@,
            title@,
            present@,
            texts(names@),
        ),
{
    let c = subtitle_candidates(dir, stem, title);
    let ghost cv = c@.map_values(|p: (String, String)| (p.0@, p.1@));
    let ghost first = present_candidates(cv, present@, cv.len() as int);
    let ghost nv = texts(names@);
    let ghost second = listed_files(dir@, nv, stem@, title@, nv.len() as int);
    let mut r: Vec<LocalSubtitle> = Vec::new();
    let mut i: usize = 0;
    assert(present_candidates(cv, present@, 0) =~= Seq::<(Seq<char>, Seq<char>, Option<Seq<char>>)>::empty());
    while i < c.len()
        invariant
            i <= c@.len(),
            cv == c@.map_values(|p: (String, String)| (p.0@, p.1@)),
            views(r@) == dedup_paths(present_candidates(cv, present@, i as int)),
        decreases c.len() - i,
    {
        let ghost prev = present_candidates(cv, present@, i as int);
        if i < present.len() && present[i] {
            let p = &c[i].0;
            assert(cv[i as int] == (c@[i as int].0@, c@[i as int].1@));
            let f = match file_name_exec(&chars_of(p.as_str())) {
                Some(f) => string_of(&f),
                None => String::new(),
            };
            let item = LocalSubtitle { path: p.clone(), filename: f, language_code: Some(c[i].1.clone()) };
            assert(present_candidates(cv, present@, i + 1) == prev.push(local_view(item)));
            proof {
                lemma_dedup_push(prev, local_view(item));
            }
            push_unique(&mut r, item);
        } else {
            assert(present_candidates(cv, present@, i + 1) == prev);
        }
        i = i + 1;
    }
    let d = chars_of(dir);
    let s = chars_of(stem);
    let t = chars_of(title);
    let mut j: usize = 0;
    assert(first + listed_files(dir@, nv, stem@, title@, 0) =~= first);
    while j < names.len()
        invariant
            j <= names@.len(),
            nv == texts(names@),
            d@ == dir@,
            s@ == stem@,
            t@ == title@,
            views(r@) == dedup_paths(first + listed_files(dir@, nv, stem@, title@, j as int)),
        decreases names.len() - j,
    {
        let ghost prev = first + listed_files(dir@, nv, stem@, title@, j as int);
        let name = chars_of(names[j].as_str());
        assert(nv[j as int] == names@[j as int]@);
        if belongs_exec(&name, &s, &t) {
            let item = LocalSubtitle {
                path: string_of(&join_exec(&d, &name)),
                filename: names[j].clone(),
                language_code: code_of_exec(&name, &s, &t),
            };
            assert(first + listed_files(dir@, nv, stem@, title@, j + 1) =~= prev.push(local_view(item)));
            proof {
                lemma_dedup_push(prev, local_view(item));
            }
            push_unique(&mut r, item);
        } else {
            assert(first + listed_files(dir@, nv, stem@, title@, j + 1) =~= prev);
        }
        j = j + 1;
    }
    r
}

/// Which file to show first: the first in the preferred language; the
/// first of all when no language is preferred or none is in it; none when
/// there are no files.
pub open spec fn auto_choice(codes: Seq<Option<Seq<char>>>, preferred: Seq<char>) -> Option<int> {
    if codes.len() == 0 {
        None
    } else if preferred.len() == 0 {
        Some(0)
    } else if exists|i: int| 0 <= i < codes.len() && codes[i] == Some(preferred) {
        Some(choose|i: int| 0 <= i < codes.len() && codes[i] == Some(preferred) && forall|k: int|
            0 <= k < i ==> codes[k] != Some(preferred))
    } else {
        Some(0)
    }
}

pub open spec fn codes_of(files: Seq<LocalSubtitle>) -> Seq<Option<Seq<char>>> {
    files.map_values(|l: LocalSubtitle| local_view(l).2)
}

/// The file to select when the player opens.
pub fn auto_selected(files: &Vec<LocalSubtitle>, preferred: &str) -> (r: Option<usize>)
    ensures
        match auto_choice(codes_of(files@), preferred@) {
            Some(i) => r matches Some(k) && k as int == i,
            None => r is None,
        },
{
    if files.len() == 0 {
        return None;
    }
    if preferred.is_empty() {
        return Some(0);
    }
    let p = chars_of(preferred);
    let mut i: usize = 0;
    while i < files.len()
        invariant
            i <= files@.len(),
            p@ == preferred@,
            preferred@.len() > 0,
            files@.len() > 0,
            forall|k: int| 0 <= k < i ==> codes_of(files@)[k] != Some(preferred@),
        decreases files.len() - i,
    {
        let hit = match &files[i].language_code {
            Some(c) => chars_equal(&chars_of(c.as_str()), &p),
            None => false,
        };
        assert(codes_of(files@)[i as int] == local_view(files@[i as int]).2);
        if hit {
            let ghost codes = codes_of(files@);
            assert(codes[i as int] == Some(preferred@));
            let ghost j = choose|j: int| 0 <= j < codes.len() && codes[j] == Some(preferred@) && forall|k: int|
                0 <= k < j ==> codes[k] != Some(preferred@);
            assert(j == i) by {
                if j < i {
                    assert(codes[j] != Some(preferred@));
                }
                if j > i {
                    assert(codes[i as int] != Some(preferred@));
                }
            }
            return Some(i);
        }
        i = i + 1;
    }
    Some(0)
}

/// How the subtitle menu names a file: by the language of its code when the
/// application knows it, otherwise by its file name.
pub enum MenuLabel {
    /// The language at this position of `language_codes`.
    Language(usize),
    /// The file name.
    FileName(String),
}

/// Whether a code names a language the application knows, at `i`.
pub open spec fn known_code_at(code: Option<Seq<char>>, i: int) -> bool {
    code matches Some(c) && c.len() > 0 && 0 <= i < 6 && language_codes()[i] == c && forall|k: int|
        0 <= k < i ==> language_codes()[k] != c
}

/// The menu label of a file: its language when its code is a known one
/// (the first position that holds it), otherwise its file name.
pub fn menu_label(file: &LocalSubtitle) -> (r: MenuLabel)
    ensures
        match r {
            MenuLabel::Language(i) => known_code_at(local_view(*file).2, i as int),
            MenuLabel::FileName(n) => n@ == file.filename@ && forall|i: int| !known_code_at(local_view(*file).2, i),
        },
{
    match &file.language_code {
        Some(c) => {
            if c.as_str().is_empty() {
                return MenuLabel::FileName(file.filename.clone());
            }
            match language_index(c.as_str()) {
                Some(i) => MenuLabel::Language(i),
                None => MenuLabel::FileName(file.filename.clone()),
            }
        },
        None => MenuLabel::FileName(file.filename.clone()),
    }
}

/// The files the edit dialog looks for first: `{stem}.{lang}.srt`, then
/// `{title}.{lang}.srt` when there is a title.
pub open spec fn preferred_candidates_for(dir: Seq<char>, stem: Seq<char>, title: Seq<char>, lang: Seq<char>) -> Seq<Seq<char>> {
    let first = seq![join(dir, srt_name(stem, lang))];
    if title.len() > 0 {
        first.push(join(dir, srt_name(title, lang)))
    } else {
        first
    }
}

/// The files to look for first in the preferred language.
pub fn preferred_candidates(dir: &str, stem: &str, title: &str, lang: &str) -> (r: Vec<String>)
    ensures
        texts(r@) == preferred_candidates_for(dir@, stem@, title@, lang@),
{
    let d = chars_of(dir);
    let l = chars_of(lang);
    let mut r: Vec<String> = Vec::new();
    r.push(string_of(&join_exec(&d, &srt_name_exec(&chars_of(stem), &l))));
    if !title.is_empty() {
        r.push(string_of(&join_exec(&d, &srt_name_exec(&chars_of(title), &l))));
    }
    assert(texts(r@) =~= preferred_candidates_for(dir@, stem@, title@, lang@));
    r
}

/// The first directory entry that belongs to the video.
pub open spec fn first_belonging(names: Seq<Seq<char>>, stem: Seq<char>, title: Seq<char>) -> Option<int> {
    if exists|i: int| 0 <= i < names.len() && belongs(#[trigger] names[i], stem, title) {
        Some(choose|i: int| 0 <= i < names.len() && belongs(#[trigger] names[i], stem, title) && forall|k: int|
            0 <= k < i ==> !belongs(names[k], stem, title))
    } else {
        None
    }
}

/// The first candidate that exists (`present[i]` for candidate `i`).
pub open spec fn first_present(c: Seq<Seq<char>>, present: Seq<bool>) -> Option<int> {
    if exists|i: int| 0 <= i < c.len() && i < present.len() && #[trigger] present[i] {
        Some(choose|i: int| 0 <= i < c.len() && i < present.len() && #[trigger] present[i] && forall|k: int|
            0 <= k < i ==> !present[k])
    } else {
        None
    }
}

/// What the edit dialog shows for the subtitle of a video: a check mark and
/// the file name of the first preferred-language candidate that exists, or
/// else of the first directory entry that belongs to the video; nothing when
/// there is neither.
pub open spec fn resolved_subtitle(
    c: Seq<Seq<char>>,
    present: Seq<bool>,
    names: Seq<Seq<char>>,
    stem: Seq<char>,
    title: Seq<char>,
) -> Option<Seq<char>> {
    match first_present(c, present) {
        Some(i) => Some(
            "\u{2713} "@ + match file_name(c[i]) {
                Some(f) => f,
                None => Seq::empty(),
            },
        ),
        None => match first_belonging(names, stem, title) {
            Some(i) => Some("\u{2713} "@ + names[i]),
            None => None,
        },
    }
}

/// The subtitle label of the edit dialog; `present[i]` tells whether the
/// `i`-th file of `preferred_candidates` exists and `names` are the entries
/// of the video's directory.
pub fn resolve_subtitle_file(
    dir: &str,
    stem: &str,
    title: &str,
    lang: &str,
    present: &Vec<bool>,
    names: &Vec<String>,
) -> (r: Option<String>)
    ensures
        opt_text(r) == resolved_subtitle(
            preferred_candidates_for(dir@, stem@, title@, lang@),
            present@,
            texts(names@),
            stem@,
            title@,
        ),
{
    let c = preferred_candidates(dir, stem, title, lang);
    let ghost cv = texts(c@);
    let ghost nv = texts(names@);
    let mut i: usize = 0;
    while i < c.len()
        invariant
            i <= c@.len(),
            cv == texts(c@),
            cv == preferred_candidates_for(dir@, stem@, title@, lang@),
            nv == texts(names@),
            forall|k: int| 0 <= k < i && k < present@.len() ==> !present@[k],
        decreases c.len() - i,
    {
        if i < present.len() && present[i] {
            let f = match file_name_exec(&chars_of(c[i].as_str())) {
                Some(f) => string_of(&f),
                None => String::new(),
            };
            let out = crate::text::concat("\u{2713} ", f.as_str());
            proof {
                let j = choose|j: int| 0 <= j < cv.len() && j < present@.len() && #[trigger] present@[j] && forall|k: int|
                    0 <= k < j ==> !present@[k];
                assert(present@[i as int]);
                assert(j == i) by {
                    if j < i {
                        assert(!present@[j]);
                    }
                    if j > i {
                        assert(!present@[i as int]);
                    }
                }
                assert(cv[i as int] == c@[i as int]@);
            }
            return Some(out);
        }
        i = i + 1;
    }
    let s = chars_of(stem);
    let t = chars_of(title);
    let mut j: usize = 0;
    while j < names.len()
        invariant
            j <= names@.len(),
            nv == texts(names@),
            s@ == stem@,
            t@ == title@,
            first_present(cv, present@) is None,
            cv == preferred_candidates_for(dir@, stem@, title@, lang@),
            forall|k: int| 0 <= k < j ==> !belongs(#[trigger] nv[k], stem@, title@),
        decreases names.len() - j,
    {
        let name = chars_of(names[j].as_str());
        assert(nv[j as int] == names@[j as int]@);
        if belongs_exec(&name, &s, &t) {
            let out = crate::text::concat("\u{2713} ", names[j].as_str());
            proof {
                let m = choose|m: int| 0 <= m < nv.len() && belongs(#[trigger] nv[m], stem@, title@) && forall|k: int|
                    0 <= k < m ==> !belongs(nv[k], stem@, title@);
                assert(belongs(nv[j as int], stem@, title@));
                assert(m == j) by {
                    if m < j {
                        assert(!belongs(nv[m], stem@, title@));
                    }
                    if m > j {
                        assert(!belongs(nv[j as int], stem@, title@));
                    }
                }
            }
            return Some(out);
        }
        j = j + 1;
    }
    None
}

pub open spec fn opt_text(o: Option<String>) -> Option<Seq<char>> {
    match o {
        Some(s) => Some(s@),
        None => None,
    }
}

proof fn lemma_dedup_unique(s: Seq<(Seq<char>, Seq<char>, Option<Seq<char>>)>)
    ensures
        forall|i: int, j: int|
            0 <= i < j < dedup_paths(s).len() ==> (#[trigger] dedup_paths(s)[i]).0 != (
            #[trigger] dedup_paths(s)[j]).0,
    decreases s.len(),
{
    if s.len() > 0 {
        lemma_dedup_unique(s.drop_last());
        let d = dedup_paths(s.drop_last());
        if !(exists|k: int| 0 <= k < d.len() && (#[trigger] d[k]).0 == s.last().0) {
            let e = d.push(s.last());
            assert forall|i: int, j: int| 0 <= i < j < e.len() implies (#[trigger] e[i]).0 != (#[trigger] e[j]).0 by {
                if j == d.len() {
                    assert(e[i] == d[i]);
                } else {
                    assert(e[i] == d[i] && e[j] == d[j]);
                }
            }
        }
    }
}

/// The subtitle files found for a video list each path once.
pub proof fn law_found_paths_unique(
    dir: Seq<char>,
    stem: Seq<char>,
    title: Seq<char>,
    present: Seq<bool>,
    names: Seq<Seq<char>>,
)
    ensures
        forall|i: int, j: int|
            0 <= i < j < found_subtitles(dir, stem, title, present, names).len() ==> (
            #[trigger] found_subtitles(dir, stem, title, present, names)[i]).0 != (
            #[trigger] found_subtitles(dir, stem, title, present, names)[j]).0,
{
    let c = known_candidates(dir, stem, title, 6);
    lemma_dedup_unique(
        present_candidates(c, present, c.len() as int) + listed_files(dir, names, stem, title, names.len() as int),
    );
}

/// Whatever the preferred language, a file is chosen exactly when there is
/// one, and a file in the preferred language is chosen when there is one.
pub proof fn law_auto_choice(codes: Seq<Option<Seq<char>>>, preferred: Seq<char>)
    ensures
        auto_choice(codes, preferred) is Some == (codes.len() > 0),
        auto_choice(codes, preferred) matches Some(i) ==> 0 <= i < codes.len(),
        preferred.len() > 0 && (exists|k: int| 0 <= k < codes.len() && codes[k] == Some(preferred))
            ==> (auto_choice(codes, preferred) matches Some(i) && codes[i] == Some(preferred)),
{
    if codes.len() > 0 && preferred.len() > 0 && exists|k: int| 0 <= k < codes.len() && codes[k] == Some(preferred) {
        let k = choose|k: int| 0 <= k < codes.len() && codes[k] == Some(preferred);
        lemma_first_exists(codes, preferred, k);
    }
}

proof fn lemma_first_exists(codes: Seq<Option<Seq<char>>>, preferred: Seq<char>, k: int)
    requires
        0 <= k < codes.len(),
        codes[k] == Some(preferred),
    ensures
        exists|i: int| 0 <= i < codes.len() && codes[i] == Some(preferred) && forall|m: int|
            0 <= m < i ==> codes[m] != Some(preferred),
    decreases k,
{
    if exists|m: int| 0 <= m < k && codes[m] == Some(preferred) {
        let m = choose|m: int| 0 <= m < k && codes[m] == Some(preferred);
        lemma_first_exists(codes, preferred, m);
    } else {
        assert(forall|m: int| 0 <= m < k ==> codes[m] != Some(preferred));
    }
}

} // verus!
