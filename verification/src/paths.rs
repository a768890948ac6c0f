//! Unix path arithmetic on character sequences, as `std::path::Path` does it:
//! the last component, its stem and extension, joining and re-extending.

use vstd::prelude::*;
use crate::text::{slice_chars};

verus! {

/// End of a path once trailing separators and trailing `.` components are
/// dropped (they do not count as components).
pub open spec fn name_end(p: Seq<char>, e: int) -> int
    decreases e,
{
    if e <= 0 || e > p.len() {
        if e > p.len() { p.len() as int } else { 0 }
    } else if p[e - 1] == '/' {
        name_end(p, e - 1)
    } else if p[e - 1] == '.' && (e == 1 || p[e - 2] == '/') {
        name_end(p, e - 1)
    } else {
        e
    }
}

/// Start of the component that ends at `e`: just after the last `/` before `e`.
pub open spec fn component_start(p: Seq<char>, e: int) -> int
    decreases e,
{
    if e <= 0 || e > p.len() {
        0
    } else if p[e - 1] == '/' {
        e
    } else {
        component_start(p, e - 1)
    }
}

/// `[start, end)` of the file name (`Path::file_name`), when there is one:
/// not for an empty path, `/`, `.`, or a path ending in `..`.
pub open spec fn file_name_range(p: Seq<char>) -> Option<(int, int)> {
    let e = name_end(p, p.len() as int);
    let a = component_start(p, e);
    if a == e || p.subrange(a, e) == ".."@ {
        None
    } else {
        Some((a, e))
    }
}

/// `Path::file_name`.
pub open spec fn file_name(p: Seq<char>) -> Option<Seq<char>> {
    match file_name_range(p) {
        Some((a, e)) => Some(p.subrange(a, e)),
        None => None,
    }
}

/// Index of the last `.` in `s`, or -1.
pub open spec fn last_dot(s: Seq<char>) -> int
    decreases s.len(),
{
    if s.len() == 0 {
        -1
    } else if s.last() == '.' {
        s.len() - 1
    } else {
        last_dot(s.drop_last())
    }
}

/// Length of the stem of a file name: up to its last `.`, unless that dot
/// is the first character (a dot file) or there is none.
pub open spec fn stem_len(name: Seq<char>) -> int {
    if last_dot(name) > 0 {
        last_dot(name)
    } else {
        name.len() as int
    }
}

/// `Path::file_stem`.
pub open spec fn file_stem(p: Seq<char>) -> Option<Seq<char>> {
    match file_name(p) {
        Some(n) => Some(n.subrange(0, stem_len(n))),
        None => None,
    }
}

/// `Path::extension`.
pub open spec fn extension(p: Seq<char>) -> Option<Seq<char>> {
    match file_name(p) {
        Some(n) => if last_dot(n) > 0 {
            Some(n.subrange(last_dot(n) + 1, n.len() as int))
        } else {
            None
        },
        None => None,
    }
}

/// `Path::with_extension(ext)`: the path cut right after the file stem, then
/// `.ext` when `ext` is not empty; unchanged when there is no file name.
pub open spec fn with_extension(p: Seq<char>, ext: Seq<char>) -> Seq<char> {
    match file_name_range(p) {
        Some((a, e)) => {
            let cut = p.subrange(0, a + stem_len(p.subrange(a, e)));
            if ext.len() > 0 {
                cut + seq!['.'] + ext
            } else {
                cut
            }
        },
        None => p,
    }
}

/// `Path::join(b)`: `b` when it is absolute, otherwise `a` and `b` with one
/// `/` between them (none after an empty `a` or one ending in `/`).
pub open spec fn join(a: Seq<char>, b: Seq<char>) -> Seq<char> {
    if b.len() > 0 && b[0] == '/' {
        b
    } else if a.len() == 0 || a.last() == '/' {
        a + b
    } else {
        a + seq!['/'] + b
    }
}

fn name_end_exec(p: &[char]) -> (r: usize)
    ensures
        r as int == name_end(p@, p@.len() as int),
        r <= p@.len(),
{
    let mut e = p.len();
    while e > 0 && (p[e - 1] == '/' || (p[e - 1] == '.' && (e == 1 || p[e - 2] == '/')))
        invariant
            e <= p@.len(),
            name_end(p@, p@.len() as int) == name_end(p@, e as int),
        decreases e,
    {
        e = e - 1;
    }
    e
}

fn component_start_exec(p: &[char], e: usize) -> (r: usize)
    requires
        e <= p@.len(),
    ensures
        r as int == component_start(p@, e as int),
        r <= e,
{
    let mut a = e;
    while a > 0 && p[a - 1] != '/'
        invariant
            a <= e <= p@.len(),
            component_start(p@, e as int) == component_start(p@, a as int),
        decreases a,
    {
        a = a - 1;
    }
    a
}

/// The `[start, end)` range of the file name of `p`.
pub fn file_name_range_exec(p: &[char]) -> (r: Option<(usize, usize)>)
    ensures
        match r {
            Some((a, e)) => file_name_range(p@) == Some((a as int, e as int)) && a < e <= p@.len(),
            None => file_name_range(p@) is None,
        },
{
    let e = name_end_exec(p);
    let a = component_start_exec(p, e);
    if a == e {
        return None;
    }
    if e - a == 2 && p[a] == '.' && p[a + 1] == '.' {
        proof {
            reveal_strlit("..");
            assert(p@.subrange(a as int, e as int) =~= ".."@);
        }
        return None;
    }
    proof {
        reveal_strlit("..");
        if p@.subrange(a as int, e as int) == ".."@ {
            assert(p@.subrange(a as int, e as int)[0] == '.');
            assert(p@.subrange(a as int, e as int)[1] == '.');
        }
    }
    Some((a, e))
}

/// `Path::file_name`.
pub fn file_name_exec(p: &[char]) -> (r: Option<Vec<char>>)
    ensures
        match r {
            Some(v) => file_name(p@) == Some(v@),
            None => file_name(p@) is None,
        },
{
    match file_name_range_exec(p) {
        Some((a, e)) => Some(slice_chars(p, a, e)),
        None => None,
    }
}

/// Index of the last `.`, or `None`.
pub fn last_dot_exec(s: &[char]) -> (r: Option<usize>)
    ensures
        match r {
            Some(k) => last_dot(s@) == k as int && k < s@.len(),
            None => last_dot(s@) == -1,
        },
{
    let mut j = s.len();
    assert(s@.subrange(0, j as int) =~= s@);
    while j > 0 && s[j - 1] != '.'
        invariant
            j <= s@.len(),
            last_dot(s@) == last_dot(s@.subrange(0, j as int)),
        decreases j,
    {
        assert(s@.subrange(0, j as int).drop_last() =~= s@.subrange(0, j - 1));
        j = j - 1;
    }
    if j == 0 {
        None
    } else {
        Some(j - 1)
    }
}

fn stem_len_exec(name: &[char]) -> (r: usize)
    ensures
        r as int == stem_len(name@),
        r <= name@.len(),
{
    match last_dot_exec(name) {
        Some(k) => if k > 0 {
            k
        } else {
            name.len()
        },
        None => name.len(),
    }
}

/// `Path::file_stem`.
pub fn file_stem_exec(p: &[char]) -> (r: Option<Vec<char>>)
    ensures
        match r {
            Some(v) => file_stem(p@) == Some(v@),
            None => file_stem(p@) is None,
        },
{
    match file_name_exec(p) {
        Some(n) => {
            let k = stem_len_exec(&n);
            Some(slice_chars(&n, 0, k))
        },
        None => None,
    }
}

/// `Path::extension`.
pub fn extension_exec(p: &[char]) -> (r: Option<Vec<char>>)
    ensures
        match r {
            Some(v) => extension(p@) == Some(v@),
            None => extension(p@) is None,
        },
{
    match file_name_exec(p) {
        Some(n) => match last_dot_exec(&n) {
            Some(k) => if k > 0 {
                Some(slice_chars(&n, k + 1, n.len()))
            } else {
                None
            },
            None => None,
        },
        None => None,
    }
}

/// `Path::with_extension`.
pub fn with_extension_exec(p: &[char], ext: &[char]) -> (r: Vec<char>)
    ensures
        r@ == with_extension(p@, ext@),
{
    match file_name_range_exec(p) {
        Some((a, e)) => {
            let name = slice_chars(p, a, e);
            let k = stem_len_exec(&name);
            let mut cut = slice_chars(p, 0, a + k);
            if ext.len() > 0 {
                cut.push('.');
                let mut i: usize = 0;
                let ghost base = cut@;
                while i < ext.len()
                    invariant
                        i <= ext@.len(),
                        cut@ == base + ext@.subrange(0, i as int),
                    decreases ext.len() - i,
                {
                    cut.push(ext[i]);
                    i = i + 1;
                }
                assert(ext@.subrange(0, ext@.len() as int) =~= ext@);
            }
            cut
        },
        None => slice_chars(p, 0, p.len()),
    }
}

/// Appends `b` to `a`.
pub fn append_chars(a: &mut Vec<char>, b: &[char])
    ensures
        final(a)@ == old(a)@ + b@,
{
    let mut i: usize = 0;
    let ghost base = a@;
    while i < b.len()
        invariant
            i <= b@.len(),
            a@ == base + b@.subrange(0, i as int),
        decreases b.len() - i,
    {
        a.push(b[i]);
        i = i + 1;
    }
    assert(b@.subrange(0, b@.len() as int) =~= b@);
}

/// `Path::join`.
pub fn join_exec(a: &[char], b: &[char]) -> (r: Vec<char>)
    ensures
        r@ == join(a@, b@),
{
    if b.len() > 0 && b[0] == '/' {
        return slice_chars(b, 0, b.len());
    }
    let mut r = slice_chars(a, 0, a.len());
    if !(a.len() == 0 || a[a.len() - 1] == '/') {
        r.push('/');
    }
    append_chars(&mut r, b);
    r
}

} // verus!
