//! Searching, splitting and replacing in character sequences, as `str`'s
//! `find`, `split`, `replace`, `lines` and `join` do it.

use vstd::prelude::*;
use crate::text::slice_chars;
use crate::paths::append_chars;

verus! {

/// `pat` occurs in `s` at `i`.
pub open spec fn occurs_at(s: Seq<char>, pat: Seq<char>, i: int) -> bool {
    0 <= i && i + pat.len() <= s.len() && s.subrange(i, i + pat.len()) == pat
}

/// Index of the first occurrence of `pat` at or after `i`, or -1.
pub open spec fn find_from(s: Seq<char>, pat: Seq<char>, i: int) -> int
    decreases s.len() - i,
{
    if i < 0 || i >= s.len() || i + pat.len() > s.len() {
        -1
    } else if occurs_at(s, pat, i) {
        i
    } else {
        find_from(s, pat, i + 1)
    }
}

/// `s[i..].split(pat)` for a non-empty `pat`: the pieces between the
/// occurrences of `pat`, found left to right without overlap.
pub open spec fn split_from(s: Seq<char>, pat: Seq<char>, i: int) -> Seq<Seq<char>>
    decreases s.len() - i,
{
    let k = find_from(s, pat, i);
    if pat.len() > 0 && 0 <= i <= k && k + pat.len() <= s.len() {
        seq![s.subrange(i, k)] + split_from(s, pat, k + pat.len())
    } else {
        seq![s.subrange(i, s.len() as int)]
    }
}

/// `s.split(pat)`.
pub open spec fn split(s: Seq<char>, pat: Seq<char>) -> Seq<Seq<char>> {
    split_from(s, pat, 0)
}

/// `s[i..].replace(from, to)` for a non-empty `from`.
pub open spec fn replace_from(s: Seq<char>, from: Seq<char>, to: Seq<char>, i: int) -> Seq<char>
    decreases s.len() - i,
{
    let k = find_from(s, from, i);
    if from.len() > 0 && 0 <= i <= k && k + from.len() <= s.len() {
        s.subrange(i, k) + to + replace_from(s, from, to, k + from.len())
    } else {
        s.subrange(i, s.len() as int)
    }
}

/// `s.replace(from, to)`.
pub open spec fn replace(s: Seq<char>, from: Seq<char>, to: Seq<char>) -> Seq<char> {
    replace_from(s, from, to, 0)
}

/// A line without one trailing `\r`.
pub open spec fn strip_cr(l: Seq<char>) -> Seq<char> {
    if l.len() > 0 && l.last() == '\r' {
        l.drop_last()
    } else {
        l
    }
}

/// `s.lines()`: split at `\n`, no empty last line after a final `\n`, and
/// one `\r` dropped from the end of each line that a `\n` ends (a `\r`
/// at the very end of the text stays).
pub open spec fn lines(s: Seq<char>) -> Seq<Seq<char>> {
    if s.len() == 0 {
        Seq::empty()
    } else {
        let pieces = split(s, seq!['\n']);
        let kept = if s.last() == '\n' {
            pieces.drop_last()
        } else {
            pieces
        };
        Seq::new(
            kept.len(),
            |k: int|
                if k < kept.len() - 1 || s.last() == '\n' {
                    strip_cr(kept[k])
                } else {
                    kept[k]
                },
        )
    }
}

/// `pieces.join(sep)`.
pub open spec fn join_with(pieces: Seq<Seq<char>>, sep: Seq<char>) -> Seq<char>
    decreases pieces.len(),
{
    if pieces.len() == 0 {
        Seq::empty()
    } else if pieces.len() == 1 {
        pieces[0]
    } else {
        join_with(pieces.drop_last(), sep) + sep + pieces.last()
    }
}

/// Whether `pat` occurs at `i`.
pub fn occurs_at_exec(s: &[char], pat: &[char], i: usize) -> (r: bool)
    ensures
        r == occurs_at(s@, pat@, i as int),
{
    if i > s.len() || pat.len() > s.len() - i {
        return false;
    }
    let mut k: usize = 0;
    while k < pat.len()
        invariant
            i + pat.len() <= s.len(),
            i + pat@.len() <= s@.len(),
            k <= pat@.len(),
            forall|m: int| 0 <= m < k ==> s@[i + m] == pat@[m],
        decreases pat.len() - k,
    {
        if s[i + k] != pat[k] {
            assert(s@.subrange(i as int, i + pat@.len())[k as int] != pat@[k as int]);
            return false;
        }
        k = k + 1;
    }
    assert(s@.subrange(i as int, i + pat@.len()) =~= pat@);
    true
}

/// Index of the first occurrence of `pat` at or after `i`.
pub fn find_from_exec(s: &[char], pat: &[char], i: usize) -> (r: Option<usize>)
    requires
        i <= s@.len(),
        pat@.len() > 0,
    ensures
        match r {
            Some(k) => find_from(s@, pat@, i as int) == k as int && i <= k && k + pat@.len() <= s@.len(),
            None => find_from(s@, pat@, i as int) == -1,
        },
{
    let mut j = i;
    while j < s.len() && pat.len() <= s.len() - j
        invariant
            i <= j,
            j <= s@.len(),
            pat@.len() > 0,
            find_from(s@, pat@, i as int) == find_from(s@, pat@, j as int),
        decreases s.len() - j,
    {
        if occurs_at_exec(s, pat, j) {
            return Some(j);
        }
        j = j + 1;
    }
    None
}

/// `s.split(pat)` for a non-empty `pat`.
pub fn split_exec(s: &[char], pat: &[char]) -> (r: Vec<Vec<char>>)
    requires
        pat@.len() > 0,
    ensures
        r@.len() == split(s@, pat@).len(),
        forall|k: int| 0 <= k < r@.len() ==> (#[trigger] r@[k])@ == split(s@, pat@)[k],
{
    let mut out: Vec<Vec<char>> = Vec::new();
    let ghost outv: Seq<Seq<char>> = Seq::empty();
    let mut i: usize = 0;
    loop
        invariant
            pat@.len() > 0,
            i <= s@.len(),
            outv.len() == out@.len(),
            forall|k: int| 0 <= k < out@.len() ==> (#[trigger] out@[k])@ == outv[k],
            outv + split_from(s@, pat@, i as int) == split(s@, pat@),
        decreases s.len() - i,
    {
        let ghost rest = split_from(s@, pat@, i as int);
        match find_from_exec(s, pat, i) {
            Some(k) => {
                let piece = slice_chars(s, i, k);
                proof {
                    assert(outv.push(piece@) + split_from(s@, pat@, k + pat@.len()) =~= outv + rest);
                    outv = outv.push(piece@);
                }
                out.push(piece);
                i = k + pat.len();
            },
            None => {
                let piece = slice_chars(s, i, s.len());
                proof {
                    assert(outv.push(piece@) =~= outv + rest);
                    outv = outv.push(piece@);
                }
                out.push(piece);
                return out;
            },
        }
    }
}

/// `s.replace(from, to)` for a non-empty `from`.
pub fn replace_exec(s: &[char], from: &[char], to: &[char]) -> (r: Vec<char>)
    requires
        from@.len() > 0,
    ensures
        r@ == replace(s@, from@, to@),
{
    let mut out: Vec<char> = Vec::new();
    let mut i: usize = 0;
    loop
        invariant
            from@.len() > 0,
            i <= s@.len(),
            out@ + replace_from(s@, from@, to@, i as int) == replace(s@, from@, to@),
        decreases s.len() - i,
    {
        let ghost rest = replace_from(s@, from@, to@, i as int);
        let ghost before = out@;
        match find_from_exec(s, from, i) {
            Some(k) => {
                let piece = slice_chars(s, i, k);
                append_chars(&mut out, &piece);
                append_chars(&mut out, to);
                assert(out@ + replace_from(s@, from@, to@, k + from@.len()) =~= before + rest);
                i = k + from.len();
            },
            None => {
                let piece = slice_chars(s, i, s.len());
                append_chars(&mut out, &piece);
                assert(out@ =~= before + rest);
                return out;
            },
        }
    }
}

/// `s.lines()`.
pub fn lines_exec(s: &[char]) -> (r: Vec<Vec<char>>)
    ensures
        r@.len() == lines(s@).len(),
        forall|k: int| 0 <= k < r@.len() ==> (#[trigger] r@[k])@ == lines(s@)[k],
{
    let mut out: Vec<Vec<char>> = Vec::new();
    if s.len() == 0 {
        return out;
    }
    let nl: Vec<char> = vec!['\n'];
    assert(nl@ =~= seq!['\n']);
    let pieces = split_exec(s, &nl);
    let ghost p = split(s@, seq!['\n']);
    let n = if s[s.len() - 1] == '\n' && pieces.len() > 0 {
        pieces.len() - 1
    } else {
        pieces.len()
    };
    let ghost kept = if s@.last() == '\n' {
        p.drop_last()
    } else {
        p
    };
    proof {
        if s@.last() == '\n' {
            assert(p.len() > 0) by {
                reveal_with_fuel(split_from, 1);
            }
        }
    }
    let mut i: usize = 0;
    while i < n
        invariant
            n == kept.len(),
            kept.len() <= p.len(),
            p.len() == pieces@.len(),
            forall|k: int| 0 <= k < pieces@.len() ==> (#[trigger] pieces@[k])@ == p[k],
            forall|k: int| 0 <= k < kept.len() ==> kept[k] == p[k],
            i <= n,
            out@.len() == i,
            s@.len() > 0,
            forall|k: int| 0 <= k < i ==> (#[trigger] out@[k])@ == (if k < kept.len() - 1 || s@.last() == '\n' {
                strip_cr(kept[k])
            } else {
                kept[k]
            }),
        decreases n - i,
    {
        let l = &pieces[i];
        let ended = i + 1 < n || s[s.len() - 1] == '\n';
        let line = if ended && l.len() > 0 && l[l.len() - 1] == '\r' {
            slice_chars(l, 0, l.len() - 1)
        } else {
            slice_chars(l, 0, l.len())
        };
        assert(line@ == (if i < kept.len() - 1 || s@.last() == '\n' {
            strip_cr(kept[i as int])
        } else {
            kept[i as int]
        }));
        out.push(line);
        i = i + 1;
    }
    out
}

/// `pieces.join(sep)`.
pub fn join_exec(pieces: &[Vec<char>], sep: &[char]) -> (r: Vec<char>)
    ensures
        r@ == join_with(pieces@.map_values(|v: Vec<char>| v@), sep@),
{
    let ghost ps = pieces@.map_values(|v: Vec<char>| v@);
    let mut out: Vec<char> = Vec::new();
    let mut i: usize = 0;
    while i < pieces.len()
        invariant
            i <= pieces@.len(),
            ps == pieces@.map_values(|v: Vec<char>| v@),
            out@ == join_with(ps.subrange(0, i as int), sep@),
        decreases pieces.len() - i,
    {
        proof {
            assert(ps.subrange(0, i + 1).drop_last() =~= ps.subrange(0, i as int));
        }
        if i > 0 {
            append_chars(&mut out, sep);
        }
        append_chars(&mut out, &pieces[i]);
        proof {
            if i == 0 {
                assert(out@ =~= ps.subrange(0, 1)[0]);
            }
        }
        i = i + 1;
    }
    assert(ps.subrange(0, pieces@.len() as int) =~= ps);
    out
}

/// `p` has no `c` after its first character.
pub open spec fn free_after_first(p: Seq<char>, c: char) -> bool {
    forall|m: int| 1 <= m < p.len() ==> p[m] != c
}

/// No occurrence of `p` can start inside `t`: from every position of `t`, `t`
/// and `p` disagree before `t` ends.
pub open spec fn never_starts_in(t: Seq<char>, p: Seq<char>) -> bool {
    forall|q: int| 0 <= q < t.len() ==> #[trigger] disagrees_from(t, p, q)
}

/// `t` from position `q` and `p` differ somewhere before `t` ends.
pub open spec fn disagrees_from(t: Seq<char>, p: Seq<char>, q: int) -> bool {
    exists|d: int| #![trigger p[d]] 0 <= d < p.len() && q + d < t.len() && t[q + d] != p[d]
}

proof fn lemma_find_from(s: Seq<char>, p: Seq<char>, i: int)
    requires
        0 <= i,
        p.len() > 0,
    ensures
        find_from(s, p, i) >= 0 ==> i <= find_from(s, p, i) && occurs_at(s, p, find_from(s, p, i))
            && forall|j: int| i <= j < find_from(s, p, i) ==> !occurs_at(s, p, j),
        find_from(s, p, i) < 0 ==> find_from(s, p, i) == -1 && forall|j: int| i <= j ==> !occurs_at(s, p, j),
    decreases s.len() - i,
{
    if i >= s.len() || i + p.len() > s.len() {
    } else if occurs_at(s, p, i) {
    } else {
        lemma_find_from(s, p, i + 1);
    }
}

/// Replacing every `f` by `t` leaves no occurrence of `p`, when each
/// occurrence of `p` in the text was one of `f`, no occurrence of `p` can
/// start inside `t`, and `p` holds the first character of `t` only at its
/// start.
pub proof fn lemma_replace_leaves_none(s: Seq<char>, f: Seq<char>, t: Seq<char>, p: Seq<char>, i: int)
    requires
        0 <= i <= s.len(),
        f.len() > 0,
        t.len() > 0,
        p.len() > 0,
        free_after_first(p, t[0]),
        never_starts_in(t, p),
        forall|k: int| i <= k && occurs_at(s, p, k) ==> occurs_at(s, f, k),
    ensures
        forall|j: int| !occurs_at(replace_from(s, f, t, i), p, j),
    decreases s.len() - i,
{
    let k = find_from(s, f, i);
    lemma_find_from(s, f, i);
    let r = replace_from(s, f, t, i);
    if 0 <= i <= k && k + f.len() <= s.len() {
        let a = s.subrange(i, k);
        let rest = replace_from(s, f, t, k + f.len());
        lemma_replace_leaves_none(s, f, t, p, k + f.len());
        assert(r == a + t + rest);
        assert forall|j: int| !occurs_at(r, p, j) by {
            if occurs_at(r, p, j) {
                let w = r.subrange(j, j + p.len());
                assert(w == p);
                if j < a.len() {
                    if j + p.len() <= a.len() {
                        assert(s.subrange(i + j, i + j + p.len()) =~= w);
                        assert(occurs_at(s, p, i + j));
                        assert(!occurs_at(s, f, i + j));
                    } else {
                        let m = a.len() - j;
                        assert(w[m] == r[a.len() as int]);
                        assert(r[a.len() as int] == t[0]);
                        assert(p[m] == t[0]);
                    }
                } else if j < a.len() + t.len() {
                    let q = j - a.len();
                    assert(disagrees_from(t, p, q));
                    let d = choose|d: int| #![trigger p[d]] 0 <= d < p.len() && q + d < t.len() && t[q + d] != p[d];
                    assert(w[d] == r[j + d]);
                    assert(r[j + d] == t[q + d]);
                } else {
                    let j2 = j - a.len() - t.len();
                    assert(rest.subrange(j2, j2 + p.len()) =~= w);
                    assert(occurs_at(rest, p, j2));
                }
            }
        }
    } else {
        assert(r == s.subrange(i, s.len() as int));
        assert forall|j: int| !occurs_at(r, p, j) by {
            if occurs_at(r, p, j) {
                assert(s.subrange(i + j, i + j + p.len()) =~= r.subrange(j, j + p.len()));
                assert(occurs_at(s, p, i + j));
                assert(occurs_at(s, f, i + j));
            }
        }
    }
}

} // verus!
