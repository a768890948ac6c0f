//! SubRip (`.srt`) subtitle files: decoding, cue times and cue text.

use vstd::prelude::*;
use vstd::utf8::{decode_utf8, valid_utf8};
use crate::strings::{
    disagrees_from, free_after_first, join_exec, join_with, lemma_replace_leaves_none, lines, lines_exec,
    occurs_at, replace, replace_exec, split, split_exec,
};
use crate::text::{chars_of, parse_u64, parse_u64_chars, string_of, trim, trim_chars};

verus! {

/// One subtitle cue.
#[derive(Debug, Clone)]
pub struct SubtitleEntry {
    pub start_ms: u64,
    pub end_ms: u64,
    pub text: String,
}

/// Each byte read as the character with that code (ISO-8859-1).
pub open spec fn latin1(b: Seq<u8>) -> Seq<char> {
    Seq::new(b.len(), |i: int| (b[i] as u32) as char)
}

/// The text of a subtitle file: UTF-8 when the bytes are valid UTF-8,
/// otherwise ISO-8859-1 (common for Spanish subtitles).
pub open spec fn srt_text(b: Seq<u8>) -> Seq<char> {
    if valid_utf8(b) {
        decode_utf8(b)
    } else {
        latin1(b)
    }
}

/// Calls `std::str::from_utf8`. Claimed, as its documentation states: it
/// succeeds exactly on valid UTF-8 and then yields the decoded characters.
#[verifier::external_body]
fn utf8_decode(bytes: &[u8]) -> (r: Option<String>)
    ensures
        r is Some == valid_utf8(bytes@),
        r matches Some(s) ==> s@ == decode_utf8(bytes@),
{
    std::str::from_utf8(bytes).ok().map(|s| s.to_owned())
}

/// Decodes the bytes of a subtitle file.
pub fn decode_srt_bytes(bytes: &[u8]) -> (r: String)
    ensures
        r@ == srt_text(bytes@),
{
    match utf8_decode(bytes) {
        Some(s) => s,
        None => {
            let mut v: Vec<char> = Vec::new();
            let mut i: usize = 0;
            while i < bytes.len()
                invariant
                    i <= bytes@.len(),
                    v@ =~= latin1(bytes@).subrange(0, i as int),
                decreases bytes.len() - i,
            {
                v.push(bytes[i] as char);
                i = i + 1;
            }
            assert(v@ =~= latin1(bytes@));
            string_of(&v)
        },
    }
}

pub open spec fn comma_to_dot(s: Seq<char>) -> Seq<char> {
    Seq::new(s.len(), |i: int| if s[i] == ',' { '.' } else { s[i] })
}

/// A field read as `u64`, or 0 when it does not parse.
pub open spec fn num_or_zero(s: Seq<char>) -> nat {
    match parse_u64(s) {
        Some(v) => v as nat,
        None => 0,
    }
}

/// Milliseconds of an SRT time such as `00:01:02,500`: commas become dots;
/// with exactly three `:`-separated fields, hours and minutes are the
/// trimmed first two fields, seconds and milliseconds the two sides of the
/// first `.` of the trimmed third (fields that do not parse count 0);
/// anything else is 0.
pub open spec fn srt_time_value(t: Seq<char>) -> nat {
    let parts = split(comma_to_dot(t), seq![':']);
    if parts.len() == 3 {
        let h = num_or_zero(trim(parts[0]));
        let m = num_or_zero(trim(parts[1]));
        let sp = split(trim(parts[2]), seq!['.']);
        let s = num_or_zero(sp[0]);
        let ms = if sp.len() > 1 {
            num_or_zero(sp[1])
        } else {
            0
        };
        (h * 3600 + m * 60 + s) * 1000 + ms
    } else {
        0
    }
}

proof fn lemma_split_nonempty(s: Seq<char>, p: Seq<char>)
    ensures
        split(s, p).len() >= 1,
{
    reveal_with_fuel(crate::strings::split_from, 1);
}

fn num_or_zero_exec(v: &[char]) -> (r: u64)
    ensures
        r as nat == num_or_zero(v@),
{
    match parse_u64_chars(v) {
        Some(x) => x,
        None => 0,
    }
}

/// The milliseconds of an SRT time, or `None` when they do not fit a `u64`.
pub fn srt_time_checked(t: &str) -> (r: Option<u64>)
    ensures
        r matches Some(x) ==> x as nat == srt_time_value(t@),
        r is None ==> srt_time_value(t@) > u64::MAX,
{
    let raw = chars_of(t);
    let mut clean: Vec<char> = Vec::new();
    let mut i: usize = 0;
    while i < raw.len()
        invariant
            i <= raw@.len(),
            clean@ =~= comma_to_dot(raw@).subrange(0, i as int),
        decreases raw.len() - i,
    {
        if raw[i] == ',' {
            clean.push('.');
        } else {
            clean.push(raw[i]);
        }
        i = i + 1;
    }
    assert(clean@ =~= comma_to_dot(t@));
    let colon: Vec<char> = vec![':'];
    assert(colon@ =~= seq![':']);
    let parts = split_exec(&clean, &colon);
    if parts.len() != 3 {
        return Some(0);
    }
    let h = num_or_zero_exec(&trim_chars(&parts[0]));
    let m = num_or_zero_exec(&trim_chars(&parts[1]));
    let third = trim_chars(&parts[2]);
    let dot: Vec<char> = vec!['.'];
    assert(dot@ =~= seq!['.']);
    let sp = split_exec(&third, &dot);
    proof {
        lemma_split_nonempty(third@, seq!['.']);
    }
    let s = num_or_zero_exec(&sp[0]);
    let ms = if sp.len() > 1 {
        num_or_zero_exec(&sp[1])
    } else {
        0
    };
    let total: u128 = (h as u128 * 3600 + m as u128 * 60 + s as u128) * 1000 + ms as u128;
    if total > u64::MAX as u128 {
        None
    } else {
        Some(total as u64)
    }
}

/// Milliseconds of an SRT time (see `srt_time_value`). The value must fit a
/// `u64`: the arithmetic is plain, and overflows on absurd input.
pub fn parse_srt_time(time_str: &str) -> (r: u64)
    requires
        srt_time_value(time_str@) <= u64::MAX,
    ensures
        r as nat == srt_time_value(time_str@),
{
    match srt_time_checked(time_str) {
        Some(x) => x,
        None => 0,
    }
}

/// `<font` tags turned into `<span` tags, which the subtitle label can show.
pub open spec fn font_to_span(t: Seq<char>) -> Seq<char> {
    replace(replace(t, "<font"@, "<span"@), "</font>"@, "</span>"@)
}

/// The blocks of a subtitle file: line ends normalised to `\n`, then split
/// at blank lines (`\n\n`).
pub open spec fn srt_blocks(c: Seq<char>) -> Seq<Seq<char>> {
    split(replace(c, "\r\n"@, "\n"@), "\n\n"@)
}

/// Start text, end text and cue text of a block: its second line must split
/// at ` --> ` into exactly two times; the cue text is the lines after it,
/// joined with `\n`, with font tags turned into spans.
pub open spec fn block_cue(b: Seq<char>) -> Option<(Seq<char>, Seq<char>, Seq<char>)> {
    let ls = lines(b);
    if ls.len() >= 2 {
        let parts = split(ls[1], " --> "@);
        if parts.len() == 2 {
            Some((parts[0], parts[1], font_to_span(join_with(ls.subrange(2, ls.len() as int), "\n"@))))
        } else {
            None
        }
    } else {
        None
    }
}

/// The cues among the first `n` blocks, in order.
pub open spec fn cues(blocks: Seq<Seq<char>>, n: int) -> Seq<(Seq<char>, Seq<char>, Seq<char>)>
    decreases n,
{
    if n <= 0 || n > blocks.len() {
        Seq::empty()
    } else {
        match block_cue(blocks[n - 1]) {
            Some(c) => cues(blocks, n - 1).push(c),
            None => cues(blocks, n - 1),
        }
    }
}

/// The cues of a subtitle file.
pub open spec fn srt_cues(c: Seq<char>) -> Seq<(Seq<char>, Seq<char>, Seq<char>)> {
    cues(srt_blocks(c), srt_blocks(c).len() as int)
}

/// Every cue time of the file fits a `u64` in milliseconds.
pub open spec fn srt_fits(c: Seq<char>) -> bool {
    forall|i: int|
        0 <= i < srt_cues(c).len() ==> srt_time_value((#[trigger] srt_cues(c)[i]).0) <= u64::MAX
            && srt_time_value(srt_cues(c)[i].1) <= u64::MAX
}

fn block_cue_exec(b: &[char]) -> (r: Option<(String, String, Vec<char>)>)
    ensures
        match r {
            Some((s, e, t)) => block_cue(b@) == Some((s@, e@, t@)),
            None => block_cue(b@) is None,
        },
{
    let ls = lines_exec(b);
    if ls.len() < 2 {
        return None;
    }
    let arrow = chars_of(" --> ");
    proof {
        reveal_strlit(" --> ");
    }
    let parts = split_exec(&ls[1], &arrow);
    if parts.len() != 2 {
        return None;
    }
    let mut rest: Vec<Vec<char>> = Vec::new();
    let mut i: usize = 2;
    while i < ls.len()
        invariant
            2 <= i <= ls@.len(),
            rest@.len() == i - 2,
            forall|k: int| 0 <= k < rest@.len() ==> (#[trigger] rest@[k])@ == lines(b@)[k + 2],
            ls@.len() == lines(b@).len(),
            forall|k: int| 0 <= k < ls@.len() ==> (#[trigger] ls@[k])@ == lines(b@)[k],
        decreases ls.len() - i,
    {
        rest.push(slice_vec(&ls[i]));
        i = i + 1;
    }
    assert(rest@.map_values(|v: Vec<char>| v@) =~= lines(b@).subrange(2, lines(b@).len() as int));
    let joined = join_exec(&rest, &chars_of("\n"));
    let font = chars_of("<font");
    let span = chars_of("<span");
    let cfont = chars_of("</font>");
    let cspan = chars_of("</span>");
    proof {
        reveal_strlit("<font");
        reveal_strlit("</font>");
    }
    let t1 = replace_exec(&joined, &font, &span);
    let t2 = replace_exec(&t1, &cfont, &cspan);
    Some((string_of(&parts[0]), string_of(&parts[1]), t2))
}

fn slice_vec(v: &Vec<char>) -> (r: Vec<char>)
    ensures
        r@ == v@,
{
    crate::text::slice_chars(v, 0, v.len())
}

/// The cue texts of a subtitle file: start, end and text of each cue.
fn cue_texts(contents: &str) -> (r: Vec<(String, String, Vec<char>)>)
    ensures
        r@.len() == srt_cues(contents@).len(),
        forall|i: int|
            0 <= i < r@.len() ==> {
                let c = #[trigger] srt_cues(contents@)[i];
                &&& r@[i].0@ == c.0
                &&& r@[i].1@ == c.1
                &&& r@[i].2@ == c.2
            },
{
    let c = chars_of(contents);
    let crlf = chars_of("\r\n");
    let lf = chars_of("\n");
    let blank = chars_of("\n\n");
    proof {
        reveal_strlit("\r\n");
        reveal_strlit("\n\n");
    }
    let normalized = replace_exec(&c, &crlf, &lf);
    let blocks = split_exec(&normalized, &blank);
    let ghost bs = srt_blocks(contents@);
    let mut out: Vec<(String, String, Vec<char>)> = Vec::new();
    let mut i: usize = 0;
    while i < blocks.len()
        invariant
            i <= blocks@.len(),
            blocks@.len() == bs.len(),
            forall|k: int| 0 <= k < blocks@.len() ==> (#[trigger] blocks@[k])@ == bs[k],
            out@.len() == cues(bs, i as int).len(),
            forall|k: int|
                0 <= k < out@.len() ==> {
                    let cc = #[trigger] cues(bs, i as int)[k];
                    &&& out@[k].0@ == cc.0
                    &&& out@[k].1@ == cc.1
                    &&& out@[k].2@ == cc.2
                },
        decreases blocks.len() - i,
    {
        match block_cue_exec(&blocks[i]) {
            Some(cue) => {
                out.push(cue);
            },
            None => {},
        }
        i = i + 1;
    }
    out
}

/// Whether every cue time of a subtitle file fits a `u64` in milliseconds,
/// which `parse_srt` needs.
pub fn srt_times_fit(contents: &str) -> (r: bool)
    ensures
        r == srt_fits(contents@),
{
    let cs = cue_texts(contents);
    let mut i: usize = 0;
    while i < cs.len()
        invariant
            i <= cs@.len(),
            cs@.len() == srt_cues(contents@).len(),
            forall|k: int|
                0 <= k < cs@.len() ==> {
                    let c = #[trigger] srt_cues(contents@)[k];
                    &&& cs@[k].0@ == c.0
                    &&& cs@[k].1@ == c.1
                },
            forall|k: int|
                0 <= k < i ==> srt_time_value((#[trigger] srt_cues(contents@)[k]).0) <= u64::MAX
                    && srt_time_value(srt_cues(contents@)[k].1) <= u64::MAX,
        decreases cs.len() - i,
    {
        let a = srt_time_checked(cs[i].0.as_str());
        let b = srt_time_checked(cs[i].1.as_str());
        if a.is_none() || b.is_none() {
            assert(srt_cues(contents@)[i as int].0 == cs@[i as int].0@);
            return false;
        }
        i = i + 1;
    }
    true
}

/// The cues of a subtitle file, in file order.
pub fn parse_srt(contents: &str) -> (r: Vec<SubtitleEntry>)
    requires
        srt_fits(contents@),
    ensures
        r@.len() == srt_cues(contents@).len(),
        forall|i: int|
            0 <= i < r@.len() ==> {
                let c = #[trigger] srt_cues(contents@)[i];
                &&& r@[i].start_ms as nat == srt_time_value(c.0)
                &&& r@[i].end_ms as nat == srt_time_value(c.1)
                &&& r@[i].text@ == c.2
            },
{
    let cs = cue_texts(contents);
    let mut out: Vec<SubtitleEntry> = Vec::new();
    let mut i: usize = 0;
    while i < cs.len()
        invariant
            srt_fits(contents@),
            i <= cs@.len(),
            cs@.len() == srt_cues(contents@).len(),
            forall|k: int|
                0 <= k < cs@.len() ==> {
                    let c = #[trigger] srt_cues(contents@)[k];
                    &&& cs@[k].0@ == c.0
                    &&& cs@[k].1@ == c.1
                    &&& cs@[k].2@ == c.2
                },
            out@.len() == i,
            forall|k: int|
                0 <= k < i ==> {
                    let c = #[trigger] srt_cues(contents@)[k];
                    &&& out@[k].start_ms as nat == srt_time_value(c.0)
                    &&& out@[k].end_ms as nat == srt_time_value(c.1)
                    &&& out@[k].text@ == c.2
                },
        decreases cs.len() - i,
    {
        assert(srt_cues(contents@)[i as int].0 == cs@[i as int].0@);
        let start = parse_srt_time(cs[i].0.as_str());
        let end = parse_srt_time(cs[i].1.as_str());
        out.push(SubtitleEntry { start_ms: start, end_ms: end, text: string_of(&cs[i].2) });
        i = i + 1;
    }
    out
}

/// A cue's text keeps no font tag: every `<font` and every `</font>` of the
/// block's text lines has become the span tag that matches it.
pub proof fn law_no_font_tags_left(t: Seq<char>)
    ensures
        forall|j: int| !occurs_at(font_to_span(t), "<font"@, j),
        forall|j: int| !occurs_at(font_to_span(t), "</font>"@, j),
{
    reveal_strlit("<font");
    reveal_strlit("<span");
    reveal_strlit("</font>");
    reveal_strlit("</span>");
    let f1 = "<font"@;
    let t1 = "<span"@;
    let f2 = "</font>"@;
    let t2 = "</span>"@;
    assert(free_after_first(f1, t1[0]));
    assert(free_after_first(f2, t2[0]));
    assert(free_after_first(f1, t2[0]));
    assert forall|q: int| 0 <= q < t1.len() implies #[trigger] disagrees_from(t1, f1, q) by {
        if q == 0 {
            assert(t1[q + 1] != f1[1]);
        } else {
            assert(t1[q + 0] != f1[0]);
        }
    }
    assert forall|q: int| 0 <= q < t2.len() implies #[trigger] disagrees_from(t2, f2, q) by {
        if q == 0 {
            assert(t2[q + 2] != f2[2]);
        } else {
            assert(t2[q + 0] != f2[0]);
        }
    }
    assert forall|q: int| 0 <= q < t2.len() implies #[trigger] disagrees_from(t2, f1, q) by {
        if q == 0 {
            assert(t2[q + 1] != f1[1]);
        } else {
            assert(t2[q + 0] != f1[0]);
        }
    }
    lemma_replace_leaves_none(t, f1, t1, f1, 0);
    let inner = replace(t, f1, t1);
    lemma_replace_leaves_none(inner, f2, t2, f2, 0);
    lemma_replace_leaves_none(inner, f2, t2, f1, 0);
}

proof fn lemma_cue_texts_spanned(blocks: Seq<Seq<char>>, n: int)
    ensures
        forall|i: int|
            0 <= i < cues(blocks, n).len() ==> exists|t: Seq<char>| (#[trigger] cues(blocks, n)[i]).2 == font_to_span(t),
    decreases n,
{
    if n > 0 && n <= blocks.len() {
        lemma_cue_texts_spanned(blocks, n - 1);
        let prev = cues(blocks, n - 1);
        match block_cue(blocks[n - 1]) {
            Some(c) => {
                let ls = lines(blocks[n - 1]);
                let t = join_with(ls.subrange(2, ls.len() as int), "\n"@);
                assert forall|i: int| 0 <= i < cues(blocks, n).len() implies exists|t: Seq<char>|
                    (#[trigger] cues(blocks, n)[i]).2 == font_to_span(t) by {
                    if i < prev.len() {
                        assert(cues(blocks, n)[i] == prev[i]);
                    } else {
                        assert(cues(blocks, n)[i] == c);
                        assert(c.2 == font_to_span(t));
                    }
                }
            },
            None => {},
        }
    }
}

/// `x` holds neither an opening nor a closing font tag.
pub open spec fn no_font_tags(x: Seq<char>) -> bool {
    &&& forall|j: int| !occurs_at(x, "<font"@, j)
    &&& forall|j: int| !occurs_at(x, "</font>"@, j)
}

/// No cue of a subtitle file keeps a font tag.
pub proof fn law_cues_have_no_font_tags(c: Seq<char>)
    ensures
        forall|i: int| 0 <= i < srt_cues(c).len() ==> no_font_tags(#[trigger] srt_cues(c)[i].2),
{
    lemma_cue_texts_spanned(srt_blocks(c), srt_blocks(c).len() as int);
    assert forall|i: int| 0 <= i < srt_cues(c).len() implies no_font_tags(#[trigger] srt_cues(c)[i].2) by {
        let t = choose|t: Seq<char>| (#[trigger] srt_cues(c)[i]).2 == font_to_span(t);
        law_no_font_tags_left(t);
    }
}

} // verus!
