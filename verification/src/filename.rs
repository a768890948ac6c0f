//! Title and year of a movie read from its file name.
//!
//! The grammar is that of a handful of regular expressions (Unicode classes,
//! leftmost-first, non-overlapping replacement); each is written below as a
//! spec function over the characters of the name.

use vstd::prelude::*;
use crate::text::{
    chars_of, is_white_space, parse_i32, parse_i32_chars, regex_decimal_char, regex_word_char,
    slice_chars, string_of, trim, trim_chars, white_space,
};

verus! {

/// Result of parsing a movie file name.
#[derive(Debug, Clone, PartialEq)]
pub struct ParsedFilename {
    /// Clean title (no year, quality tags, and so on).
    pub title: String,
    /// Release year, when the name holds one.
    pub year: Option<i32>,
}

// ───────────────────────── positions and classes ─────────────────────────

/// First index at or after `i` whose character is not white space, or the
/// length.
pub open spec fn ws_end(s: Seq<char>, i: int) -> int
    decreases s.len() - i,
{
    if i < 0 || i >= s.len() {
        s.len() as int
    } else if is_white_space(s[i]) {
        ws_end(s, i + 1)
    } else {
        i
    }
}

/// First index at or after `i` holding `]`, or the length.
pub open spec fn close_from(s: Seq<char>, i: int) -> int
    decreases s.len() - i,
{
    if i < 0 || i >= s.len() {
        s.len() as int
    } else if s[i] == ']' {
        i
    } else {
        close_from(s, i + 1)
    }
}

/// Index of the last `c`, or -1.
pub open spec fn last_index_of(s: Seq<char>, c: char) -> int
    decreases s.len(),
{
    if s.len() == 0 {
        -1
    } else if s.last() == c {
        s.len() - 1
    } else {
        last_index_of(s.drop_last(), c)
    }
}

// ───────────────────────── the grammar ─────────────────────────

/// The name without its extension: everything before the last `.`
/// (`str::rsplit_once('.')`), or all of it when there is no `.`.
pub open spec fn without_extension(s: Seq<char>) -> Seq<char> {
    let k = last_index_of(s, '.');
    if k >= 0 {
        s.subrange(0, k)
    } else {
        s
    }
}

/// End of a leading release-group tag `^\[[^\]]{1,25}\]\s*`, if there is one.
pub open spec fn leading_group_end(s: Seq<char>) -> Option<int> {
    let k = close_from(s, 1);
    if s.len() > 0 && s[0] == '[' && 2 <= k <= 26 && k < s.len() {
        Some(ws_end(s, k + 1))
    } else {
        None
    }
}

/// The name with a leading release-group tag such as `[YTS.MX] ` removed.
pub open spec fn without_leading_group(s: Seq<char>) -> Seq<char> {
    match leading_group_end(s) {
        Some(e) => s.subrange(e, s.len() as int),
        None => s,
    }
}

pub open spec fn dot_or_underscore_to_space(c: char) -> char {
    if c == '.' || c == '_' {
        ' '
    } else {
        c
    }
}

/// Dots and underscores turned into spaces.
pub open spec fn normalize(s: Seq<char>) -> Seq<char> {
    Seq::new(s.len(), |k: int| dot_or_underscore_to_space(s[k]))
}

/// Whether `s[k]` exists and is a regex word character (`\w`).
pub open spec fn word_at(s: Seq<char>, k: int) -> bool {
    0 <= k < s.len() && regex_word_char(s[k])
}

/// The regex word boundary `\b` at position `i`.
pub open spec fn boundary(s: Seq<char>, i: int) -> bool {
    word_at(s, i - 1) != word_at(s, i)
}

pub open spec fn dec_at(s: Seq<char>, k: int) -> bool {
    0 <= k < s.len() && regex_decimal_char(s[k])
}

/// `(19\d{2}|20[0-2]\d|2030)` at `i`.
pub open spec fn year_digits(s: Seq<char>, i: int) -> bool {
    &&& 0 <= i
    &&& i + 4 <= s.len()
    &&& {
        ||| (s[i] == '1' && s[i + 1] == '9' && dec_at(s, i + 2) && dec_at(s, i + 3))
        ||| (s[i] == '2' && s[i + 1] == '0' && '0' <= s[i + 2] && s[i + 2] <= '2' && dec_at(s, i + 3))
        ||| (s[i] == '2' && s[i + 1] == '0' && s[i + 2] == '3' && s[i + 3] == '0')
    }
}

/// `\b(19\d{2}|20[0-2]\d|2030)\b` matches at `i`.
pub open spec fn year_at(s: Seq<char>, i: int) -> bool {
    boundary(s, i) && year_digits(s, i) && boundary(s, i + 4)
}

/// Leftmost match of the year pattern at or after `i`.
pub open spec fn first_year_from(s: Seq<char>, i: int) -> Option<int>
    decreases s.len() - i,
{
    if i < 0 || i >= s.len() {
        None
    } else if year_at(s, i) {
        Some(i)
    } else {
        first_year_from(s, i + 1)
    }
}

/// `\[[^\]]*\]` replaced by a space, left to right.
pub open spec fn unbracket_from(s: Seq<char>, i: int) -> Seq<char>
    decreases s.len() - i,
{
    if i < 0 || i >= s.len() {
        Seq::empty()
    } else {
        let j = close_from(s, i + 1);
        if s[i] == '[' && i < j < s.len() {
            seq![' '] + unbracket_from(s, j + 1)
        } else {
            seq![s[i]] + unbracket_from(s, i + 1)
        }
    }
}

/// `\(\s*\)` replaced by a space, left to right.
pub open spec fn unparen_from(s: Seq<char>, i: int) -> Seq<char>
    decreases s.len() - i,
{
    if i < 0 || i >= s.len() {
        Seq::empty()
    } else {
        let j = ws_end(s, i + 1);
        if s[i] == '(' && i < j < s.len() && s[j] == ')' {
            seq![' '] + unparen_from(s, j + 1)
        } else {
            seq![s[i]] + unparen_from(s, i + 1)
        }
    }
}

pub open spec fn dash_to_space(c: char) -> char {
    if c == '-' || c == '\u{2013}' || c == '\u{2014}' {
        ' '
    } else {
        c
    }
}

/// `[-–—]` replaced by a space.
pub open spec fn undash(s: Seq<char>) -> Seq<char> {
    Seq::new(s.len(), |k: int| dash_to_space(s[k]))
}

/// Each run `\s+` replaced by one space, left to right.
pub open spec fn squeeze_from(s: Seq<char>, i: int) -> Seq<char>
    decreases s.len() - i,
{
    if i < 0 || i >= s.len() {
        Seq::empty()
    } else {
        let j = ws_end(s, i);
        if is_white_space(s[i]) && i < j <= s.len() {
            seq![' '] + squeeze_from(s, j)
        } else {
            seq![s[i]] + squeeze_from(s, i + 1)
        }
    }
}

/// The text before a year at `i`, without the opening parenthesis right
/// before it (`"Inception (2010)"` gives `"Inception "`).
pub open spec fn before_year(s: Seq<char>, i: int) -> Seq<char> {
    if i > 0 && s[i - 1] == '(' {
        s.subrange(0, i - 1)
    } else {
        s.subrange(0, i)
    }
}

/// The title clean-up: bracketed tags and empty parentheses out, dashes to
/// spaces, white space runs to one space, trimmed.
pub open spec fn sanitize(s: Seq<char>) -> Seq<char> {
    trim(squeeze_from(undash(unparen_from(unbracket_from(s, 0), 0)), 0))
}


// ───────────────────────── positions, executable ─────────────────────────

fn ws_end_exec(v: &[char], i: usize) -> (r: usize)
    requires
        i <= v@.len(),
    ensures
        r as int == ws_end(v@, i as int),
        i <= r <= v@.len(),
{
    let mut j = i;
    while j < v.len() && white_space(v[j])
        invariant
            i <= j <= v@.len(),
            ws_end(v@, i as int) == ws_end(v@, j as int),
        decreases v.len() - j,
    {
        j = j + 1;
    }
    j
}

fn close_from_exec(v: &[char], i: usize) -> (r: usize)
    requires
        i <= v@.len(),
    ensures
        r as int == close_from(v@, i as int),
        i <= r <= v@.len(),
{
    let mut j = i;
    while j < v.len() && v[j] != ']'
        invariant
            i <= j <= v@.len(),
            close_from(v@, i as int) == close_from(v@, j as int),
        decreases v.len() - j,
    {
        j = j + 1;
    }
    j
}

fn unbracket(v: &[char]) -> (r: Vec<char>)
    ensures
        r@ == unbracket_from(v@, 0),
{
    let n = v.len();
    let mut out: Vec<char> = Vec::new();
    let mut i: usize = 0;
    while i < n
        invariant
            n == v@.len(),
            i <= n,
            out@ + unbracket_from(v@, i as int) == unbracket_from(v@, 0),
        decreases n - i,
    {
        let ghost rest = unbracket_from(v@, i as int);
        if v[i] == '[' {
            let j = close_from_exec(v, i + 1);
            if j < n {
                proof {
                    assert(out@.push(' ') + unbracket_from(v@, j + 1) =~= out@ + rest);
                }
                out.push(' ');
                i = j + 1;
                continue;
            }
        }
        proof {
            assert(out@.push(v@[i as int]) + unbracket_from(v@, i + 1) =~= out@ + rest);
        }
        out.push(v[i]);
        i = i + 1;
    }
    assert(out@ + unbracket_from(v@, n as int) =~= out@);
    out
}

fn unparen(v: &[char]) -> (r: Vec<char>)
    ensures
        r@ == unparen_from(v@, 0),
{
    let n = v.len();
    let mut out: Vec<char> = Vec::new();
    let mut i: usize = 0;
    while i < n
        invariant
            n == v@.len(),
            i <= n,
            out@ + unparen_from(v@, i as int) == unparen_from(v@, 0),
        decreases n - i,
    {
        let ghost rest = unparen_from(v@, i as int);
        if v[i] == '(' {
            let j = ws_end_exec(v, i + 1);
            if j < n && v[j] == ')' {
                proof {
                    assert(out@.push(' ') + unparen_from(v@, j + 1) =~= out@ + rest);
                }
                out.push(' ');
                i = j + 1;
                continue;
            }
        }
        proof {
            assert(out@.push(v@[i as int]) + unparen_from(v@, i + 1) =~= out@ + rest);
        }
        out.push(v[i]);
        i = i + 1;
    }
    assert(out@ + unparen_from(v@, n as int) =~= out@);
    out
}

fn undash_exec(v: &[char]) -> (r: Vec<char>)
    ensures
        r@ == undash(v@),
{
    let mut out: Vec<char> = Vec::new();
    let mut i: usize = 0;
    while i < v.len()
        invariant
            i <= v@.len(),
            out@ =~= undash(v@).subrange(0, i as int),
        decreases v.len() - i,
    {
        let c = v[i];
        if c == '-' || c == '\u{2013}' || c == '\u{2014}' {
            out.push(' ');
        } else {
            out.push(c);
        }
        i = i + 1;
    }
    assert(out@ =~= undash(v@));
    out
}

fn squeeze(v: &[char]) -> (r: Vec<char>)
    ensures
        r@ == squeeze_from(v@, 0),
{
    let n = v.len();
    let mut out: Vec<char> = Vec::new();
    let mut i: usize = 0;
    while i < n
        invariant
            n == v@.len(),
            i <= n,
            out@ + squeeze_from(v@, i as int) == squeeze_from(v@, 0),
        decreases n - i,
    {
        let ghost rest = squeeze_from(v@, i as int);
        if white_space(v[i]) {
            let j = ws_end_exec(v, i + 1);
            proof {
                assert(out@.push(' ') + squeeze_from(v@, j as int) =~= out@ + rest);
            }
            out.push(' ');
            i = j;
        } else {
            proof {
                assert(out@.push(v@[i as int]) + squeeze_from(v@, i + 1) =~= out@ + rest);
            }
            out.push(v[i]);
            i = i + 1;
        }
    }
    assert(out@ + squeeze_from(v@, n as int) =~= out@);
    out
}

fn sanitize_title(v: &[char]) -> (r: Vec<char>)
    ensures
        r@ == sanitize(v@),
{
    let a = unbracket(v);
    let b = unparen(&a);
    let c = undash_exec(&b);
    let d = squeeze(&c);
    trim_chars(&d)
}


// ───────────────────────── quality tags ─────────────────────────

/// One of the quality/codec/release tags that are removed from a name that
/// has no year. Each is matched case-insensitively between word boundaries.
pub enum QualityTag {
    /// `\bWORD\b`
    Word(Seq<char>),
    /// `\bDDP\d*\.?\d*\b`
    DolbyDigitalPlus,
    /// `\bDIRECTOR.?S?.?CUT\b`
    DirectorsCut,
}

/// The tags, in the order in which they are removed.
pub open spec fn quality_tags() -> Seq<QualityTag> {
    seq![
        QualityTag::Word("4K"@),
        QualityTag::Word("2160p"@),
        QualityTag::Word("1080p"@),
        QualityTag::Word("720p"@),
        QualityTag::Word("480p"@),
        QualityTag::Word("1080i"@),
        QualityTag::Word("720i"@),
        QualityTag::Word("BluRay"@),
        QualityTag::Word("Blu-Ray"@),
        QualityTag::Word("BDRip"@),
        QualityTag::Word("BDRemux"@),
        QualityTag::Word("BrRip"@),
        QualityTag::Word("WEB-DL"@),
        QualityTag::Word("WEBDL"@),
        QualityTag::Word("WEBRip"@),
        QualityTag::Word("HDRip"@),
        QualityTag::Word("HDTV"@),
        QualityTag::Word("DVDRip"@),
        QualityTag::Word("DVDScr"@),
        QualityTag::Word("CAMRip"@),
        QualityTag::Word("TS"@),
        QualityTag::Word("HDCam"@),
        QualityTag::Word("x264"@),
        QualityTag::Word("x265"@),
        QualityTag::Word("H264"@),
        QualityTag::Word("H265"@),
        QualityTag::Word("HEVC"@),
        QualityTag::Word("AVC"@),
        QualityTag::Word("XviD"@),
        QualityTag::Word("DivX"@),
        QualityTag::Word("REMUX"@),
        QualityTag::Word("AAC"@),
        QualityTag::Word("AC3"@),
        QualityTag::Word("DTS"@),
        QualityTag::Word("TrueHD"@),
        QualityTag::Word("Atmos"@),
        QualityTag::DolbyDigitalPlus,
        QualityTag::Word("DD5.1"@),
        QualityTag::Word("5.1"@),
        QualityTag::Word("7.1"@),
        QualityTag::Word("KOREAN"@),
        QualityTag::Word("JAPANESE"@),
        QualityTag::Word("CHINESE"@),
        QualityTag::Word("MANDARIN"@),
        QualityTag::Word("HINDI"@),
        QualityTag::Word("FRENCH"@),
        QualityTag::Word("SPANISH"@),
        QualityTag::Word("PORTUGUESE"@),
        QualityTag::Word("ITALIAN"@),
        QualityTag::Word("GERMAN"@),
        QualityTag::Word("RUSSIAN"@),
        QualityTag::Word("DUBBED"@),
        QualityTag::Word("MULTI"@),
        QualityTag::Word("BiLiNGUAL"@),
        QualityTag::Word("SUB"@),
        QualityTag::Word("SUBS"@),
        QualityTag::Word("REMASTERED"@),
        QualityTag::Word("EXTENDED"@),
        QualityTag::DirectorsCut,
        QualityTag::Word("UNRATED"@),
        QualityTag::Word("THEATRICAL"@),
        QualityTag::Word("ULTIMATE"@),
        QualityTag::Word("AMZN"@),
        QualityTag::Word("NFLX"@),
        QualityTag::Word("NF"@),
        QualityTag::Word("DSNP"@),
        QualityTag::Word("HBOMAX"@),
        QualityTag::Word("APPLE"@),
        QualityTag::Word("PCOK"@),
        QualityTag::Word("YIFY"@),
        QualityTag::Word("YTS"@),
        QualityTag::Word("YTS.MX"@),
        QualityTag::Word("YTS.AM"@),
        QualityTag::Word("RARBG"@),
        QualityTag::Word("Ganool"@),
        QualityTag::Word("EVO"@),
        QualityTag::Word("GalaxyRG"@),
        QualityTag::Word("PROPER"@),
        QualityTag::Word("REPACK"@)
    ]
}

/// Case-insensitive equality of a text character `c` with an ASCII pattern
/// character `p`, by Unicode simple case folding (which adds the Kelvin sign
/// to `k` and the long s to `s`).
pub open spec fn ci_eq(c: char, p: char) -> bool {
    ||| c == p
    ||| ('a' <= p && p <= 'z' && (c as u32) + 32 == (p as u32))
    ||| ('A' <= p && p <= 'Z' && (c as u32) == (p as u32) + 32)
    ||| ((p == 'k' || p == 'K') && c == '\u{212a}')
    ||| ((p == 's' || p == 'S') && c == '\u{17f}')
}

/// `w` matches case-insensitively at `i`.
pub open spec fn ci_match(s: Seq<char>, i: int, w: Seq<char>) -> bool {
    &&& 0 <= i
    &&& i + w.len() <= s.len()
    &&& forall|k: int| 0 <= k < w.len() ==> ci_eq(#[trigger] s[i + k], w[k])
}

/// First index at or after `i` that is not a regex decimal digit, or the length.
pub open spec fn dec_end(s: Seq<char>, i: int) -> int
    decreases s.len() - i,
{
    if i < 0 || i >= s.len() {
        s.len() as int
    } else if regex_decimal_char(s[i]) {
        dec_end(s, i + 1)
    } else {
        i
    }
}

pub open spec fn not_newline_at(s: Seq<char>, k: int) -> bool {
    0 <= k < s.len() && s[k] != '\n'
}

pub open spec fn cut_at(s: Seq<char>, p: int) -> bool {
    ci_match(s, p, "CUT"@) && boundary(s, p + 3)
}

/// End of the match of `\bDIRECTOR.?S?.?CUT\b` at `i`, in the regex's order
/// of preference (the longest middle first).
pub open spec fn directors_cut_end(s: Seq<char>, i: int) -> Option<int> {
    if boundary(s, i) && ci_match(s, i, "DIRECTOR"@) {
        let j = i + 8;
        if not_newline_at(s, j) && j + 1 < s.len() && ci_eq(s[j + 1], 'S') && not_newline_at(s, j + 2)
            && cut_at(s, j + 3) {
            Some(j + 6)
        } else if not_newline_at(s, j) && not_newline_at(s, j + 1) && cut_at(s, j + 2) {
            Some(j + 5)
        } else if not_newline_at(s, j) && cut_at(s, j + 1) {
            Some(j + 4)
        } else if cut_at(s, j) {
            Some(j + 3)
        } else {
            None
        }
    } else {
        None
    }
}

/// End of the match of `\bDDP\d*\.?\d*\b` at `i` on text without `.` (the
/// only text the tags are applied to): the digit run is taken whole.
pub open spec fn ddp_end(s: Seq<char>, i: int) -> Option<int> {
    if boundary(s, i) && ci_match(s, i, "DDP"@) && boundary(s, dec_end(s, i + 3)) {
        Some(dec_end(s, i + 3))
    } else {
        None
    }
}

/// End of the match of a tag at `i`, if it matches there.
pub open spec fn tag_end(t: QualityTag, s: Seq<char>, i: int) -> Option<int> {
    match t {
        QualityTag::Word(w) => if w.len() > 0 && boundary(s, i) && ci_match(s, i, w) && boundary(
            s,
            i + w.len(),
        ) {
            Some(i + w.len())
        } else {
            None
        },
        QualityTag::DolbyDigitalPlus => ddp_end(s, i),
        QualityTag::DirectorsCut => directors_cut_end(s, i),
    }
}

/// Every match of `t`, left to right and without overlap, replaced by a space.
pub open spec fn strip_from(t: QualityTag, s: Seq<char>, i: int) -> Seq<char>
    decreases s.len() - i,
{
    if i < 0 || i >= s.len() {
        Seq::empty()
    } else {
        match tag_end(t, s, i) {
            Some(e) => if i < e <= s.len() {
                seq![' '] + strip_from(t, s, e)
            } else {
                seq![s[i]] + strip_from(t, s, i + 1)
            },
            None => seq![s[i]] + strip_from(t, s, i + 1),
        }
    }
}

/// The first `n` tags removed, one after the other.
pub open spec fn strip_tags(s: Seq<char>, n: int) -> Seq<char>
    decreases n,
{
    if n <= 0 {
        s
    } else {
        strip_from(quality_tags()[n - 1], strip_tags(s, n - 1), 0)
    }
}

/// All quality tags removed (each match becomes a space).
pub open spec fn remove_quality_tags(s: Seq<char>) -> Seq<char> {
    strip_tags(s, quality_tags().len() as int)
}

// ───────────────────────── quality tags, executable ─────────────────────────

enum TagPattern {
    Word(Vec<char>),
    DolbyDigitalPlus,
    DirectorsCut,
}

impl View for TagPattern {
    type V = QualityTag;

    closed spec fn view(&self) -> QualityTag {
        match self {
            TagPattern::Word(w) => QualityTag::Word(w@),
            TagPattern::DolbyDigitalPlus => QualityTag::DolbyDigitalPlus,
            TagPattern::DirectorsCut => QualityTag::DirectorsCut,
        }
    }
}

#[verifier::rlimit(60)]
fn quality_tag_at(i: usize) -> (t: TagPattern)
    requires
        i < quality_tags().len(),
    ensures
        t@ == quality_tags()[i as int],
{
    if i == 0 {
        TagPattern::Word(chars_of("4K"))
    } else if i == 1 {
        TagPattern::Word(chars_of("2160p"))
    } else if i == 2 {
        TagPattern::Word(chars_of("1080p"))
    } else if i == 3 {
        TagPattern::Word(chars_of("720p"))
    } else if i == 4 {
        TagPattern::Word(chars_of("480p"))
    } else if i == 5 {
        TagPattern::Word(chars_of("1080i"))
    } else if i == 6 {
        TagPattern::Word(chars_of("720i"))
    } else if i == 7 {
        TagPattern::Word(chars_of("BluRay"))
    } else if i == 8 {
        TagPattern::Word(chars_of("Blu-Ray"))
    } else if i == 9 {
        TagPattern::Word(chars_of("BDRip"))
    } else if i == 10 {
        TagPattern::Word(chars_of("BDRemux"))
    } else if i == 11 {
        TagPattern::Word(chars_of("BrRip"))
    } else if i == 12 {
        TagPattern::Word(chars_of("WEB-DL"))
    } else if i == 13 {
        TagPattern::Word(chars_of("WEBDL"))
    } else if i == 14 {
        TagPattern::Word(chars_of("WEBRip"))
    } else if i == 15 {
        TagPattern::Word(chars_of("HDRip"))
    } else if i == 16 {
        TagPattern::Word(chars_of("HDTV"))
    } else if i == 17 {
        TagPattern::Word(chars_of("DVDRip"))
    } else if i == 18 {
        TagPattern::Word(chars_of("DVDScr"))
    } else if i == 19 {
        TagPattern::Word(chars_of("CAMRip"))
    } else if i == 20 {
        TagPattern::Word(chars_of("TS"))
    } else if i == 21 {
        TagPattern::Word(chars_of("HDCam"))
    } else if i == 22 {
        TagPattern::Word(chars_of("x264"))
    } else if i == 23 {
        TagPattern::Word(chars_of("x265"))
    } else if i == 24 {
        TagPattern::Word(chars_of("H264"))
    } else if i == 25 {
        TagPattern::Word(chars_of("H265"))
    } else if i == 26 {
        TagPattern::Word(chars_of("HEVC"))
    } else if i == 27 {
        TagPattern::Word(chars_of("AVC"))
    } else if i == 28 {
        TagPattern::Word(chars_of("XviD"))
    } else if i == 29 {
        TagPattern::Word(chars_of("DivX"))
    } else if i == 30 {
        TagPattern::Word(chars_of("REMUX"))
    } else if i == 31 {
        TagPattern::Word(chars_of("AAC"))
    } else if i == 32 {
        TagPattern::Word(chars_of("AC3"))
    } else if i == 33 {
        TagPattern::Word(chars_of("DTS"))
    } else if i == 34 {
        TagPattern::Word(chars_of("TrueHD"))
    } else if i == 35 {
        TagPattern::Word(chars_of("Atmos"))
    } else if i == 36 {
        TagPattern::DolbyDigitalPlus
    } else if i == 37 {
        TagPattern::Word(chars_of("DD5.1"))
    } else if i == 38 {
        TagPattern::Word(chars_of("5.1"))
    } else if i == 39 {
        TagPattern::Word(chars_of("7.1"))
    } else if i == 40 {
        TagPattern::Word(chars_of("KOREAN"))
    } else if i == 41 {
        TagPattern::Word(chars_of("JAPANESE"))
    } else if i == 42 {
        TagPattern::Word(chars_of("CHINESE"))
    } else if i == 43 {
        TagPattern::Word(chars_of("MANDARIN"))
    } else if i == 44 {
        TagPattern::Word(chars_of("HINDI"))
    } else if i == 45 {
        TagPattern::Word(chars_of("FRENCH"))
    } else if i == 46 {
        TagPattern::Word(chars_of("SPANISH"))
    } else if i == 47 {
        TagPattern::Word(chars_of("PORTUGUESE"))
    } else if i == 48 {
        TagPattern::Word(chars_of("ITALIAN"))
    } else if i == 49 {
        TagPattern::Word(chars_of("GERMAN"))
    } else if i == 50 {
        TagPattern::Word(chars_of("RUSSIAN"))
    } else if i == 51 {
        TagPattern::Word(chars_of("DUBBED"))
    } else if i == 52 {
        TagPattern::Word(chars_of("MULTI"))
    } else if i == 53 {
        TagPattern::Word(chars_of("BiLiNGUAL"))
    } else if i == 54 {
        TagPattern::Word(chars_of("SUB"))
    } else if i == 55 {
        TagPattern::Word(chars_of("SUBS"))
    } else if i == 56 {
        TagPattern::Word(chars_of("REMASTERED"))
    } else if i == 57 {
        TagPattern::Word(chars_of("EXTENDED"))
    } else if i == 58 {
        TagPattern::DirectorsCut
    } else if i == 59 {
        TagPattern::Word(chars_of("UNRATED"))
    } else if i == 60 {
        TagPattern::Word(chars_of("THEATRICAL"))
    } else if i == 61 {
        TagPattern::Word(chars_of("ULTIMATE"))
    } else if i == 62 {
        TagPattern::Word(chars_of("AMZN"))
    } else if i == 63 {
        TagPattern::Word(chars_of("NFLX"))
    } else if i == 64 {
        TagPattern::Word(chars_of("NF"))
    } else if i == 65 {
        TagPattern::Word(chars_of("DSNP"))
    } else if i == 66 {
        TagPattern::Word(chars_of("HBOMAX"))
    } else if i == 67 {
        TagPattern::Word(chars_of("APPLE"))
    } else if i == 68 {
        TagPattern::Word(chars_of("PCOK"))
    } else if i == 69 {
        TagPattern::Word(chars_of("YIFY"))
    } else if i == 70 {
        TagPattern::Word(chars_of("YTS"))
    } else if i == 71 {
        TagPattern::Word(chars_of("YTS.MX"))
    } else if i == 72 {
        TagPattern::Word(chars_of("YTS.AM"))
    } else if i == 73 {
        TagPattern::Word(chars_of("RARBG"))
    } else if i == 74 {
        TagPattern::Word(chars_of("Ganool"))
    } else if i == 75 {
        TagPattern::Word(chars_of("EVO"))
    } else if i == 76 {
        TagPattern::Word(chars_of("GalaxyRG"))
    } else if i == 77 {
        TagPattern::Word(chars_of("PROPER"))
    } else {
        TagPattern::Word(chars_of("REPACK"))
    }
}


/// Characters with their regex classes, as `word_char`/`decimal_char` gave them.
struct Classified {
    chars: Vec<char>,
    word: Vec<bool>,
    dec: Vec<bool>,
}

impl Classified {
    spec fn wf(&self) -> bool {
        &&& self.word@.len() == self.chars@.len()
        &&& self.dec@.len() == self.chars@.len()
        &&& forall|k: int|
            0 <= k < self.chars@.len() ==> self.word@[k] == regex_word_char(#[trigger] self.chars@[k])
        &&& forall|k: int|
            0 <= k < self.chars@.len() ==> self.dec@[k] == regex_decimal_char(#[trigger] self.chars@[k])
    }
}

fn classify(v: Vec<char>) -> (r: Classified)
    ensures
        r.wf(),
        r.chars@ == v@,
{
    let mut word: Vec<bool> = Vec::new();
    let mut dec: Vec<bool> = Vec::new();
    let mut i: usize = 0;
    while i < v.len()
        invariant
            i <= v@.len(),
            word@.len() == i,
            dec@.len() == i,
            forall|k: int| 0 <= k < i ==> word@[k] == regex_word_char(#[trigger] v@[k]),
            forall|k: int| 0 <= k < i ==> dec@[k] == regex_decimal_char(#[trigger] v@[k]),
        decreases v.len() - i,
    {
        word.push(crate::text::word_char(v[i]));
        dec.push(crate::text::decimal_char(v[i]));
        i = i + 1;
    }
    Classified { chars: v, word, dec }
}

fn boundary_exec(t: &Classified, i: usize) -> (r: bool)
    requires
        t.wf(),
        i <= t.chars@.len(),
    ensures
        r == boundary(t.chars@, i as int),
{
    let before = i > 0 && t.word[i - 1];
    let after = i < t.chars.len() && t.word[i];
    before != after
}

fn ci_eq_exec(c: char, p: char) -> (r: bool)
    ensures
        r == ci_eq(c, p),
{
    c == p || ('a' <= p && p <= 'z' && (c as u32) + 32 == (p as u32)) || ('A' <= p && p <= 'Z' && (
    c as u32) == (p as u32) + 32) || ((p == 'k' || p == 'K') && c == '\u{212a}') || ((p == 's' || p
        == 'S') && c == '\u{17f}')
}

fn ci_match_exec(s: &[char], i: usize, w: &[char]) -> (r: bool)
    ensures
        r == ci_match(s@, i as int, w@),
        r ==> i + w.len() <= s.len(),
{
    if i > s.len() || w.len() > s.len() - i {
        return false;
    }
    let mut k: usize = 0;
    while k < w.len()
        invariant
            i + w.len() <= s.len(),
            i + w@.len() <= s@.len(),
            k <= w@.len(),
            forall|m: int| 0 <= m < k ==> ci_eq(#[trigger] s@[i + m], w@[m]),
        decreases w.len() - k,
    {
        if !ci_eq_exec(s[i + k], w[k]) {
            assert(!ci_eq(s@[i + k as int], w@[k as int]));
            return false;
        }
        k = k + 1;
    }
    true
}

fn dec_end_exec(t: &Classified, i: usize) -> (r: usize)
    requires
        t.wf(),
        i <= t.chars@.len(),
    ensures
        r as int == dec_end(t.chars@, i as int),
        i <= r <= t.chars@.len(),
{
    let mut j = i;
    while j < t.chars.len() && t.dec[j]
        invariant
            t.wf(),
            i <= j <= t.chars@.len(),
            dec_end(t.chars@, i as int) == dec_end(t.chars@, j as int),
        decreases t.chars.len() - j,
    {
        j = j + 1;
    }
    j
}

fn not_newline_exec(s: &[char], k: usize) -> (r: bool)
    ensures
        r == not_newline_at(s@, k as int),
{
    k < s.len() && s[k] != '\n'
}

fn cut_at_exec(t: &Classified, p: usize, cut: &[char]) -> (r: bool)
    requires
        t.wf(),
        cut@ == "CUT"@,
        cut@.len() == 3,
    ensures
        r == cut_at(t.chars@, p as int),
{
    if ci_match_exec(t.chars.as_slice(), p, cut) {
        boundary_exec(t, p + 3)
    } else {
        false
    }
}

fn directors_cut_end_exec(t: &Classified, i: usize) -> (r: Option<usize>)
    requires
        t.wf(),
        i <= t.chars@.len(),
    ensures
        match r {
            Some(e) => directors_cut_end(t.chars@, i as int) == Some(e as int) && i < e <= t.chars@.len(),
            None => directors_cut_end(t.chars@, i as int) is None,
        },
{
    let director = chars_of("DIRECTOR");
    let cut = chars_of("CUT");
    proof {
        reveal_strlit("DIRECTOR");
        reveal_strlit("CUT");
    }
    if !(boundary_exec(t, i) && ci_match_exec(t.chars.as_slice(), i, director.as_slice())) {
        return None;
    }
    let s = t.chars.as_slice();
    let j = i + 8;
    if not_newline_exec(s, j) && j + 1 < s.len() && ci_eq_exec(s[j + 1], 'S') && not_newline_exec(
        s,
        j + 2,
    ) && cut_at_exec(t, j + 3, &cut) {
        Some(j + 6)
    } else if not_newline_exec(s, j) && not_newline_exec(s, j + 1) && cut_at_exec(t, j + 2, &cut) {
        Some(j + 5)
    } else if not_newline_exec(s, j) && cut_at_exec(t, j + 1, &cut) {
        Some(j + 4)
    } else if cut_at_exec(t, j, &cut) {
        Some(j + 3)
    } else {
        None
    }
}

fn ddp_end_exec(t: &Classified, i: usize) -> (r: Option<usize>)
    requires
        t.wf(),
        i <= t.chars@.len(),
    ensures
        match r {
            Some(e) => ddp_end(t.chars@, i as int) == Some(e as int) && i < e <= t.chars@.len(),
            None => ddp_end(t.chars@, i as int) is None,
        },
{
    let ddp = chars_of("DDP");
    proof {
        reveal_strlit("DDP");
    }
    if boundary_exec(t, i) && ci_match_exec(t.chars.as_slice(), i, ddp.as_slice()) {
        let e = dec_end_exec(t, i + 3);
        if boundary_exec(t, e) {
            return Some(e);
        }
    }
    None
}

fn tag_end_exec(tag: &TagPattern, t: &Classified, i: usize) -> (r: Option<usize>)
    requires
        t.wf(),
        i < t.chars@.len(),
    ensures
        match r {
            Some(e) => tag_end(tag@, t.chars@, i as int) == Some(e as int) && i < e <= t.chars@.len(),
            None => tag_end(tag@, t.chars@, i as int) is None,
        },
{
    match tag {
        TagPattern::Word(w) => {
            if w.len() > 0 && boundary_exec(t, i) && ci_match_exec(t.chars.as_slice(), i, w.as_slice()) && boundary_exec(
                t,
                i + w.len(),
            ) {
                assert(w@.len() == w.len());
                Some(i + w.len())
            } else {
                None
            }
        },
        TagPattern::DolbyDigitalPlus => {
            let r = ddp_end_exec(t, i);
            proof {
                reveal_strlit("DDP");
            }
            r
        },
        TagPattern::DirectorsCut => {
            let r = directors_cut_end_exec(t, i);
            proof {
                reveal_strlit("DIRECTOR");
                reveal_strlit("CUT");
            }
            r
        },
    }
}

/// One tag removed from classified text, the classes carried along.
fn strip_tag(tag: &TagPattern, t: &Classified) -> (r: Classified)
    requires
        t.wf(),
        !regex_word_char(' '),
        !regex_decimal_char(' '),
    ensures
        r.wf(),
        r.chars@ == strip_from(tag@, t.chars@, 0),
{
    let n = t.chars.len();
    let mut chars: Vec<char> = Vec::new();
    let mut word: Vec<bool> = Vec::new();
    let mut dec: Vec<bool> = Vec::new();
    let mut i: usize = 0;
    while i < n
        invariant
            t.wf(),
            !regex_word_char(' '),
            !regex_decimal_char(' '),
            n == t.chars@.len(),
            i <= n,
            chars@ + strip_from(tag@, t.chars@, i as int) == strip_from(tag@, t.chars@, 0),
            word@.len() == chars@.len(),
            dec@.len() == chars@.len(),
            forall|k: int| 0 <= k < chars@.len() ==> word@[k] == regex_word_char(#[trigger] chars@[k]),
            forall|k: int| 0 <= k < chars@.len() ==> dec@[k] == regex_decimal_char(#[trigger] chars@[k]),
        decreases n - i,
    {
        let ghost rest = strip_from(tag@, t.chars@, i as int);
        match tag_end_exec(tag, t, i) {
            Some(e) => {
                proof {
                    assert(chars@.push(' ') + strip_from(tag@, t.chars@, e as int) =~= chars@ + rest);
                }
                chars.push(' ');
                word.push(false);
                dec.push(false);
                i = e;
            },
            None => {
                proof {
                    assert(chars@.push(t.chars@[i as int]) + strip_from(tag@, t.chars@, i + 1)
                        =~= chars@ + rest);
                }
                chars.push(t.chars[i]);
                word.push(t.word[i]);
                dec.push(t.dec[i]);
                i = i + 1;
            },
        }
    }
    assert(chars@ + strip_from(tag@, t.chars@, n as int) =~= chars@);
    Classified { chars, word, dec }
}

fn remove_quality_tags_exec(t: Classified) -> (r: Vec<char>)
    requires
        t.wf(),
        !regex_word_char(' '),
        !regex_decimal_char(' '),
    ensures
        r@ == remove_quality_tags(t.chars@),
{
    let ghost s = t.chars@;
    let mut cur = t;
    let mut k: usize = 0;
    while k < 79
        invariant
            cur.wf(),
            !regex_word_char(' '),
            !regex_decimal_char(' '),
            quality_tags().len() == 79,
            k <= 79,
            cur.chars@ == strip_tags(s, k as int),
        decreases 79 - k,
    {
        let tag = quality_tag_at(k);
        cur = strip_tag(&tag, &cur);
        k = k + 1;
    }
    cur.chars
}


// ───────────────────────── the whole parse ─────────────────────────

/// Title and year of a file name: the extension and a leading release-group
/// tag go; dots and underscores become spaces; everything before the first
/// year (1900–2030, between word boundaries), less an opening parenthesis
/// right before it, is the title, or, with no year,
/// the name without its quality tags; the title is then cleaned, and when it
/// comes out empty the whole cleaned name is the title.
pub open spec fn filename_title_year(f: Seq<char>) -> (Seq<char>, Option<i32>) {
    let normalized = normalize(without_leading_group(without_extension(f)));
    let y = first_year_from(normalized, 0);
    let year = match y {
        Some(i) => parse_i32(normalized.subrange(i, i + 4)),
        None => None,
    };
    let raw = match y {
        Some(i) => before_year(normalized, i),
        None => remove_quality_tags(normalized),
    };
    let t = sanitize(raw);
    let title = if t.len() == 0 {
        sanitize(normalized)
    } else {
        t
    };
    (title, year)
}

fn without_extension_exec(v: &[char]) -> (r: Vec<char>)
    ensures
        r@ == without_extension(v@),
{
    let n = v.len();
    let mut j: usize = n;
    assert(v@.subrange(0, n as int) =~= v@);
    while j > 0 && v[j - 1] != '.'
        invariant
            j <= n == v@.len(),
            last_index_of(v@, '.') == last_index_of(v@.subrange(0, j as int), '.'),
        decreases j,
    {
        assert(v@.subrange(0, j as int).drop_last() =~= v@.subrange(0, j - 1));
        j = j - 1;
    }
    if j == 0 {
        assert(v@.subrange(0, 0).len() == 0);
        slice_chars(v, 0, n)
    } else {
        assert(v@.subrange(0, j as int).last() == '.');
        slice_chars(v, 0, j - 1)
    }
}

fn without_leading_group_exec(v: &[char]) -> (r: Vec<char>)
    ensures
        r@ == without_leading_group(v@),
{
    let n = v.len();
    if n > 0 && v[0] == '[' {
        let k = close_from_exec(v, 1);
        if 2 <= k && k <= 26 && k < n {
            let e = ws_end_exec(v, k + 1);
            return slice_chars(v, e, n);
        }
    }
    slice_chars(v, 0, n)
}

fn normalize_exec(v: &[char]) -> (r: Vec<char>)
    ensures
        r@ == normalize(v@),
{
    let mut out: Vec<char> = Vec::new();
    let mut i: usize = 0;
    while i < v.len()
        invariant
            i <= v@.len(),
            out@ =~= normalize(v@).subrange(0, i as int),
        decreases v.len() - i,
    {
        let c = v[i];
        if c == '.' || c == '_' {
            out.push(' ');
        } else {
            out.push(c);
        }
        i = i + 1;
    }
    assert(out@ =~= normalize(v@));
    out
}

fn year_at_exec(t: &Classified, i: usize) -> (r: bool)
    requires
        t.wf(),
        i < t.chars@.len(),
    ensures
        r == year_at(t.chars@, i as int),
{
    let s = t.chars.as_slice();
    if !boundary_exec(t, i) || s.len() - i < 4 {
        return false;
    }
    let digits = (s[i] == '1' && s[i + 1] == '9' && t.dec[i + 2] && t.dec[i + 3]) || (s[i] == '2'
        && s[i + 1] == '0' && '0' <= s[i + 2] && s[i + 2] <= '2' && t.dec[i + 3]) || (s[i] == '2'
        && s[i + 1] == '0' && s[i + 2] == '3' && s[i + 3] == '0');
    digits && boundary_exec(t, i + 4)
}

fn first_year_exec(t: &Classified) -> (r: Option<usize>)
    requires
        t.wf(),
    ensures
        match r {
            Some(i) => first_year_from(t.chars@, 0) == Some(i as int) && i + 4 <= t.chars@.len(),
            None => first_year_from(t.chars@, 0) is None,
        },
{
    let n = t.chars.len();
    let mut i: usize = 0;
    while i < n
        invariant
            t.wf(),
            n == t.chars@.len(),
            i <= n,
            first_year_from(t.chars@, 0) == first_year_from(t.chars@, i as int),
        decreases n - i,
    {
        if year_at_exec(t, i) {
            return Some(i);
        }
        i = i + 1;
    }
    None
}

fn before_year_exec(v: &[char], i: usize) -> (r: Vec<char>)
    requires
        i <= v@.len(),
    ensures
        r@ == before_year(v@, i as int),
{
    if i > 0 && v[i - 1] == '(' {
        slice_chars(v, 0, i - 1)
    } else {
        slice_chars(v, 0, i)
    }
}

/// Parses a movie file name into title and year.
///
/// `"The.Matrix.1999.1080p.mkv"` gives `("The Matrix", 1999)`;
/// `"Some.Movie.1080p.mkv"` gives `("Some Movie", None)`.
pub fn parse_movie_filename(filename: &str) -> (r: ParsedFilename)
    ensures
        r.title@ == filename_title_year(filename@).0,
        r.year == filename_title_year(filename@).1,
{
    let f = chars_of(filename);
    let base = without_extension_exec(&f);
    let named = without_leading_group_exec(&base);
    let normalized = normalize_exec(&named);
    let space_is_word = crate::text::word_char(' ');
    let space_is_dec = crate::text::decimal_char(' ');
    assert(!space_is_word && !space_is_dec);
    let t = classify(normalized);
    let y = first_year_exec(&t);
    let year = match y {
        Some(i) => {
            assert(i + 4 <= t.chars@.len());
            let four = slice_chars(t.chars.as_slice(), i, i + 4);
            parse_i32_chars(&four)
        },
        None => None,
    };
    let whole = sanitize_title(t.chars.as_slice());
    let raw = match y {
        Some(i) => before_year_exec(t.chars.as_slice(), i),
        None => {
            let ghost g = t.chars@;
            let r = remove_quality_tags_exec(t);
            assert(r@ == remove_quality_tags(g));
            r
        },
    };
    let cleaned = sanitize_title(&raw);
    let title = if cleaned.len() == 0 {
        whole
    } else {
        cleaned
    };
    ParsedFilename { title: string_of(&title), year }
}

proof fn lemma_first_year_matches(s: Seq<char>, i: int)
    ensures
        first_year_from(s, i) matches Some(k) ==> year_at(s, k),
    decreases s.len() - i,
{
    if 0 <= i < s.len() && !year_at(s, i) {
        lemma_first_year_matches(s, i + 1);
    }
}

/// A year read from a file name lies between 1900 and 2030.
pub proof fn law_parsed_year_in_range(f: Seq<char>)
    ensures
        filename_title_year(f).1 matches Some(y) ==> 1900 <= y <= 2030,
{
    let normalized = normalize(without_leading_group(without_extension(f)));
    lemma_first_year_matches(normalized, 0);
    if let Some(i) = first_year_from(normalized, 0) {
        let d = normalized.subrange(i, i + 4);
        if let Some(y) = parse_i32(d) {
            assert(d[0] == normalized[i]);
            assert(d[1] == normalized[i + 1]);
            assert(d[2] == normalized[i + 2]);
            assert(d[3] == normalized[i + 3]);
            assert(d.len() == 4);
            assert(crate::text::all_ascii_digits(d));
            assert(crate::text::is_ascii_digit(d[2]) && crate::text::is_ascii_digit(d[3]));
            assert(d.drop_last().drop_last().drop_last().drop_last() =~= Seq::<char>::empty());
            reveal_with_fuel(crate::text::digits_value, 5);
            assert(d.drop_last().last() == d[2]);
            assert(d.drop_last().drop_last().last() == d[1]);
            assert(d.drop_last().drop_last().drop_last().last() == d[0]);
        }
    }
}

/// The quality, source, codec, audio, language, edition, streaming and
/// release-group tags that are taken out of a title without a year:
/// `4K`, `2160p`, `1080p`, `720p`, `480p`, `1080i`, `720i`, `BluRay`, ...,
/// `PROPER`, `REPACK`, and the Dolby Digital Plus and director's-cut forms.
/// Each is one of the tags `remove_quality_tags` strips, case-insensitively
/// and as a whole word.
#[verifier::rlimit(100)]
pub proof fn law_documented_quality_tags()
    ensures
        quality_tags().contains(QualityTag::Word("4K"@)),
        quality_tags().contains(QualityTag::Word("2160p"@)),
        quality_tags().contains(QualityTag::Word("1080p"@)),
        quality_tags().contains(QualityTag::Word("720p"@)),
        quality_tags().contains(QualityTag::Word("480p"@)),
        quality_tags().contains(QualityTag::Word("1080i"@)),
        quality_tags().contains(QualityTag::Word("720i"@)),
        quality_tags().contains(QualityTag::Word("BluRay"@)),
        quality_tags().contains(QualityTag::Word("Blu-Ray"@)),
        quality_tags().contains(QualityTag::Word("BDRip"@)),
        quality_tags().contains(QualityTag::Word("BDRemux"@)),
        quality_tags().contains(QualityTag::Word("BrRip"@)),
        quality_tags().contains(QualityTag::Word("WEB-DL"@)),
        quality_tags().contains(QualityTag::Word("WEBDL"@)),
        quality_tags().contains(QualityTag::Word("WEBRip"@)),
        quality_tags().contains(QualityTag::Word("HDRip"@)),
        quality_tags().contains(QualityTag::Word("HDTV"@)),
        quality_tags().contains(QualityTag::Word("DVDRip"@)),
        quality_tags().contains(QualityTag::Word("DVDScr"@)),
        quality_tags().contains(QualityTag::Word("CAMRip"@)),
        quality_tags().contains(QualityTag::Word("TS"@)),
        quality_tags().contains(QualityTag::Word("HDCam"@)),
        quality_tags().contains(QualityTag::Word("x264"@)),
        quality_tags().contains(QualityTag::Word("x265"@)),
        quality_tags().contains(QualityTag::Word("H264"@)),
        quality_tags().contains(QualityTag::Word("H265"@)),
        quality_tags().contains(QualityTag::Word("HEVC"@)),
        quality_tags().contains(QualityTag::Word("AVC"@)),
        quality_tags().contains(QualityTag::Word("XviD"@)),
        quality_tags().contains(QualityTag::Word("DivX"@)),
        quality_tags().contains(QualityTag::Word("REMUX"@)),
        quality_tags().contains(QualityTag::Word("AAC"@)),
        quality_tags().contains(QualityTag::Word("AC3"@)),
        quality_tags().contains(QualityTag::Word("DTS"@)),
        quality_tags().contains(QualityTag::Word("TrueHD"@)),
        quality_tags().contains(QualityTag::Word("Atmos"@)),
        quality_tags().contains(QualityTag::DolbyDigitalPlus),
        quality_tags().contains(QualityTag::Word("DD5.1"@)),
        quality_tags().contains(QualityTag::Word("5.1"@)),
        quality_tags().contains(QualityTag::Word("7.1"@)),
        quality_tags().contains(QualityTag::Word("KOREAN"@)),
        quality_tags().contains(QualityTag::Word("JAPANESE"@)),
        quality_tags().contains(QualityTag::Word("CHINESE"@)),
        quality_tags().contains(QualityTag::Word("MANDARIN"@)),
        quality_tags().contains(QualityTag::Word("HINDI"@)),
        quality_tags().contains(QualityTag::Word("FRENCH"@)),
        quality_tags().contains(QualityTag::Word("SPANISH"@)),
        quality_tags().contains(QualityTag::Word("PORTUGUESE"@)),
        quality_tags().contains(QualityTag::Word("ITALIAN"@)),
        quality_tags().contains(QualityTag::Word("GERMAN"@)),
        quality_tags().contains(QualityTag::Word("RUSSIAN"@)),
        quality_tags().contains(QualityTag::Word("DUBBED"@)),
        quality_tags().contains(QualityTag::Word("MULTI"@)),
        quality_tags().contains(QualityTag::Word("BiLiNGUAL"@)),
        quality_tags().contains(QualityTag::Word("SUB"@)),
        quality_tags().contains(QualityTag::Word("SUBS"@)),
        quality_tags().contains(QualityTag::Word("REMASTERED"@)),
        quality_tags().contains(QualityTag::Word("EXTENDED"@)),
        quality_tags().contains(QualityTag::DirectorsCut),
        quality_tags().contains(QualityTag::Word("UNRATED"@)),
        quality_tags().contains(QualityTag::Word("THEATRICAL"@)),
        quality_tags().contains(QualityTag::Word("ULTIMATE"@)),
        quality_tags().contains(QualityTag::Word("AMZN"@)),
        quality_tags().contains(QualityTag::Word("NFLX"@)),
        quality_tags().contains(QualityTag::Word("NF"@)),
        quality_tags().contains(QualityTag::Word("DSNP"@)),
        quality_tags().contains(QualityTag::Word("HBOMAX"@)),
        quality_tags().contains(QualityTag::Word("APPLE"@)),
        quality_tags().contains(QualityTag::Word("PCOK"@)),
        quality_tags().contains(QualityTag::Word("YIFY"@)),
        quality_tags().contains(QualityTag::Word("YTS"@)),
        quality_tags().contains(QualityTag::Word("YTS.MX"@)),
        quality_tags().contains(QualityTag::Word("YTS.AM"@)),
        quality_tags().contains(QualityTag::Word("RARBG"@)),
        quality_tags().contains(QualityTag::Word("Ganool"@)),
        quality_tags().contains(QualityTag::Word("EVO"@)),
        quality_tags().contains(QualityTag::Word("GalaxyRG"@)),
        quality_tags().contains(QualityTag::Word("PROPER"@)),
        quality_tags().contains(QualityTag::Word("REPACK"@)),
{
    assert(quality_tags()[0] == QualityTag::Word("4K"@));
    assert(quality_tags()[1] == QualityTag::Word("2160p"@));
    assert(quality_tags()[2] == QualityTag::Word("1080p"@));
    assert(quality_tags()[3] == QualityTag::Word("720p"@));
    assert(quality_tags()[4] == QualityTag::Word("480p"@));
    assert(quality_tags()[5] == QualityTag::Word("1080i"@));
    assert(quality_tags()[6] == QualityTag::Word("720i"@));
    assert(quality_tags()[7] == QualityTag::Word("BluRay"@));
    assert(quality_tags()[8] == QualityTag::Word("Blu-Ray"@));
    assert(quality_tags()[9] == QualityTag::Word("BDRip"@));
    assert(quality_tags()[10] == QualityTag::Word("BDRemux"@));
    assert(quality_tags()[11] == QualityTag::Word("BrRip"@));
    assert(quality_tags()[12] == QualityTag::Word("WEB-DL"@));
    assert(quality_tags()[13] == QualityTag::Word("WEBDL"@));
    assert(quality_tags()[14] == QualityTag::Word("WEBRip"@));
    assert(quality_tags()[15] == QualityTag::Word("HDRip"@));
    assert(quality_tags()[16] == QualityTag::Word("HDTV"@));
    assert(quality_tags()[17] == QualityTag::Word("DVDRip"@));
    assert(quality_tags()[18] == QualityTag::Word("DVDScr"@));
    assert(quality_tags()[19] == QualityTag::Word("CAMRip"@));
    assert(quality_tags()[20] == QualityTag::Word("TS"@));
    assert(quality_tags()[21] == QualityTag::Word("HDCam"@));
    assert(quality_tags()[22] == QualityTag::Word("x264"@));
    assert(quality_tags()[23] == QualityTag::Word("x265"@));
    assert(quality_tags()[24] == QualityTag::Word("H264"@));
    assert(quality_tags()[25] == QualityTag::Word("H265"@));
    assert(quality_tags()[26] == QualityTag::Word("HEVC"@));
    assert(quality_tags()[27] == QualityTag::Word("AVC"@));
    assert(quality_tags()[28] == QualityTag::Word("XviD"@));
    assert(quality_tags()[29] == QualityTag::Word("DivX"@));
    assert(quality_tags()[30] == QualityTag::Word("REMUX"@));
    assert(quality_tags()[31] == QualityTag::Word("AAC"@));
    assert(quality_tags()[32] == QualityTag::Word("AC3"@));
    assert(quality_tags()[33] == QualityTag::Word("DTS"@));
    assert(quality_tags()[34] == QualityTag::Word("TrueHD"@));
    assert(quality_tags()[35] == QualityTag::Word("Atmos"@));
    assert(quality_tags()[36] == QualityTag::DolbyDigitalPlus);
    assert(quality_tags()[37] == QualityTag::Word("DD5.1"@));
    assert(quality_tags()[38] == QualityTag::Word("5.1"@));
    assert(quality_tags()[39] == QualityTag::Word("7.1"@));
    assert(quality_tags()[40] == QualityTag::Word("KOREAN"@));
    assert(quality_tags()[41] == QualityTag::Word("JAPANESE"@));
    assert(quality_tags()[42] == QualityTag::Word("CHINESE"@));
    assert(quality_tags()[43] == QualityTag::Word("MANDARIN"@));
    assert(quality_tags()[44] == QualityTag::Word("HINDI"@));
    assert(quality_tags()[45] == QualityTag::Word("FRENCH"@));
    assert(quality_tags()[46] == QualityTag::Word("SPANISH"@));
    assert(quality_tags()[47] == QualityTag::Word("PORTUGUESE"@));
    assert(quality_tags()[48] == QualityTag::Word("ITALIAN"@));
    assert(quality_tags()[49] == QualityTag::Word("GERMAN"@));
    assert(quality_tags()[50] == QualityTag::Word("RUSSIAN"@));
    assert(quality_tags()[51] == QualityTag::Word("DUBBED"@));
    assert(quality_tags()[52] == QualityTag::Word("MULTI"@));
    assert(quality_tags()[53] == QualityTag::Word("BiLiNGUAL"@));
    assert(quality_tags()[54] == QualityTag::Word("SUB"@));
    assert(quality_tags()[55] == QualityTag::Word("SUBS"@));
    assert(quality_tags()[56] == QualityTag::Word("REMASTERED"@));
    assert(quality_tags()[57] == QualityTag::Word("EXTENDED"@));
    assert(quality_tags()[58] == QualityTag::DirectorsCut);
    assert(quality_tags()[59] == QualityTag::Word("UNRATED"@));
    assert(quality_tags()[60] == QualityTag::Word("THEATRICAL"@));
    assert(quality_tags()[61] == QualityTag::Word("ULTIMATE"@));
    assert(quality_tags()[62] == QualityTag::Word("AMZN"@));
    assert(quality_tags()[63] == QualityTag::Word("NFLX"@));
    assert(quality_tags()[64] == QualityTag::Word("NF"@));
    assert(quality_tags()[65] == QualityTag::Word("DSNP"@));
    assert(quality_tags()[66] == QualityTag::Word("HBOMAX"@));
    assert(quality_tags()[67] == QualityTag::Word("APPLE"@));
    assert(quality_tags()[68] == QualityTag::Word("PCOK"@));
    assert(quality_tags()[69] == QualityTag::Word("YIFY"@));
    assert(quality_tags()[70] == QualityTag::Word("YTS"@));
    assert(quality_tags()[71] == QualityTag::Word("YTS.MX"@));
    assert(quality_tags()[72] == QualityTag::Word("YTS.AM"@));
    assert(quality_tags()[73] == QualityTag::Word("RARBG"@));
    assert(quality_tags()[74] == QualityTag::Word("Ganool"@));
    assert(quality_tags()[75] == QualityTag::Word("EVO"@));
    assert(quality_tags()[76] == QualityTag::Word("GalaxyRG"@));
    assert(quality_tags()[77] == QualityTag::Word("PROPER"@));
    assert(quality_tags()[78] == QualityTag::Word("REPACK"@));
}

} // verus!
