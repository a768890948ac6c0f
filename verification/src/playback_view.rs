//! What the player window shows while a movie plays: the clock, the active
//! subtitle cue, the subtitle delay, and when the controls hide in full
//! screen.

use vstd::prelude::*;
use crate::srt::SubtitleEntry;
use crate::text::{concat, decimal, decimal_chars, string_of};

verus! {

/// `{:02}`: the decimal digits, with a leading zero below 10.
pub open spec fn two_digits(n: nat) -> Seq<char> {
    if n < 10 {
        seq!['0'] + decimal(n)
    } else {
        decimal(n)
    }
}

/// `MM:SS` for a whole number of seconds (minutes may have more digits).
pub open spec fn clock(total_secs: nat) -> Seq<char> {
    two_digits(total_secs / 60) + seq![':'] + two_digits(total_secs % 60)
}

fn two_digits_exec(n: u64) -> (r: Vec<char>)
    ensures
        r@ == two_digits(n as nat),
{
    let d = decimal_chars(n);
    if n < 10 {
        let mut r: Vec<char> = Vec::new();
        r.push('0');
        crate::paths::append_chars(&mut r, &d);
        assert(r@ =~= seq!['0'] + decimal(n as nat));
        r
    } else {
        d
    }
}

/// The clock text for a position in whole seconds.
pub fn clock_text(total_secs: u64) -> (r: String)
    ensures
        r@ == clock(total_secs as nat),
{
    let mut v = two_digits_exec(total_secs / 60);
    v.push(':');
    let s = two_digits_exec(total_secs % 60);
    let ghost before = v@;
    crate::paths::append_chars(&mut v, &s);
    assert(v@ =~= clock(total_secs as nat));
    string_of(&v)
}

/// Whether a playback position lies at or after `ms`. The position is
/// `whole` milliseconds and, when `fraction`, a part of one more.
pub open spec fn at_or_after(whole: int, fraction: bool, ms: int) -> bool {
    whole >= ms
}

/// Whether the position lies at or before `ms`.
pub open spec fn at_or_before(whole: int, fraction: bool, ms: int) -> bool {
    whole < ms || (whole == ms && !fraction)
}

/// The cue shown at a position: cues are tried in order; the first whose
/// span holds the position is shown, and the search stops at the first cue
/// that starts after the position.
pub open spec fn active_cue(cues: Seq<SubtitleEntry>, whole: int, fraction: bool) -> Option<int>
    decreases cues.len(),
{
    active_cue_from(cues, whole, fraction, 0)
}

pub open spec fn active_cue_from(cues: Seq<SubtitleEntry>, whole: int, fraction: bool, i: int) -> Option<int>
    decreases cues.len() - i,
{
    if i < 0 || i >= cues.len() {
        None
    } else if at_or_after(whole, fraction, cues[i].start_ms as int) && at_or_before(
        whole,
        fraction,
        cues[i].end_ms as int,
    ) {
        Some(i)
    } else if !at_or_after(whole, fraction, cues[i].start_ms as int) {
        None
    } else {
        active_cue_from(cues, whole, fraction, i + 1)
    }
}

/// The subtitle text to show at a position (`whole` milliseconds, plus a
/// part of one when `fraction`, after the delay is taken off): the active
/// cue's text, or nothing.
pub fn active_text(cues: &Vec<SubtitleEntry>, whole: i64, fraction: bool) -> (r: String)
    ensures
        match active_cue(cues@, whole as int, fraction) {
            Some(i) => r@ == cues@[i].text@,
            None => r@ == Seq::<char>::empty(),
        },
{
    let mut i: usize = 0;
    while i < cues.len()
        invariant
            i <= cues@.len(),
            active_cue(cues@, whole as int, fraction) == active_cue_from(cues@, whole as int, fraction, i as int),
        decreases cues.len() - i,
    {
        let start = cues[i].start_ms;
        let end = cues[i].end_ms;
        let after = (start as i128) <= (whole as i128);
        let before = (whole as i128) < (end as i128) || ((whole as i128) == (end as i128) && !fraction);
        if after && before {
            return cues[i].text.clone();
        }
        if !after {
            return String::new();
        }
        i = i + 1;
    }
    String::new()
}

/// Step of the subtitle delay, in milliseconds.
pub const DELAY_STEP_MS: i64 = 100;

/// The subtitle delay after "later": 100 ms more.
pub fn delay_later(offset_ms: i64) -> (r: i64)
    requires
        offset_ms + DELAY_STEP_MS <= i64::MAX,
    ensures
        r == offset_ms + DELAY_STEP_MS,
{
    offset_ms + DELAY_STEP_MS
}

/// The subtitle delay after "earlier": 100 ms less.
pub fn delay_earlier(offset_ms: i64) -> (r: i64)
    requires
        offset_ms - DELAY_STEP_MS >= i64::MIN,
    ensures
        r == offset_ms - DELAY_STEP_MS,
{
    offset_ms - DELAY_STEP_MS
}

/// Ticks of the position timer without pointer motion after which the
/// controls hide in full screen.
pub const IDLE_TICKS_TO_HIDE: u32 = 6;

/// One tick of the position timer: out of full screen the idle count is
/// reset; in full screen it grows until it reaches the limit, and from then
/// on the controls are hidden. Returns the new count and whether to hide.
pub fn idle_tick(ticks: u32, fullscreen: bool) -> (r: (u32, bool))
    ensures
        !fullscreen ==> r == (0u32, false),
        fullscreen && ticks >= IDLE_TICKS_TO_HIDE ==> r == (ticks, true),
        fullscreen && ticks < IDLE_TICKS_TO_HIDE ==> r == ((ticks + 1) as u32, false),
{
    if fullscreen {
        if ticks >= IDLE_TICKS_TO_HIDE {
            (ticks, true)
        } else {
            (ticks + 1, false)
        }
    } else {
        (0, false)
    }
}

} // verus!
