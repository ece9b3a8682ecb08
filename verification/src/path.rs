//! Qualified paths: `::`-separated identifier segments, their validity, and
//! a verified splitter.

use vstd::prelude::*;
use vstd::string::*;
use crate::surface::BuildError;

verus! {

/// The characters a path segment may hold: ASCII letters, digits, and `_`.
pub open spec fn is_ident_char(c: char) -> bool {
    ('a' <= c && c <= 'z') || ('A' <= c && c <= 'Z') || ('0' <= c && c <= '9') || c == '_'
}

/// A segment is valid when it is non-empty and made of identifier characters.
pub open spec fn valid_segment(s: Seq<char>) -> bool {
    s.len() > 0 && forall|i: int| 0 <= i < s.len() ==> is_ident_char(#[trigger] s[i])
}

/// The index of the first `::` separator at or after `i`, or `s.len()` when
/// there is none.
pub open spec fn seg_end(s: Seq<char>, i: int) -> int
    recommends
        0 <= i <= s.len(),
    decreases s.len() - i,
{
    if i >= s.len() {
        s.len() as int
    } else if i + 1 < s.len() && s[i] == ':' && s[i + 1] == ':' {
        i
    } else {
        seg_end(s, i + 1)
    }
}

/// Bounds for `seg_end`: it stays inside the string, and when it is not the
/// end it points at a `::` separator.
pub proof fn lemma_seg_end(s: Seq<char>, i: int)
    requires
        0 <= i <= s.len(),
    ensures
        i <= seg_end(s, i) <= s.len(),
        seg_end(s, i) < s.len() ==> seg_end(s, i) + 1 < s.len() && s[seg_end(s, i)] == ':' && s[
            seg_end(s, i) + 1
        ] == ':',
    decreases s.len() - i,
{
    if i < s.len() && !(i + 1 < s.len() && s[i] == ':' && s[i + 1] == ':') {
        lemma_seg_end(s, i + 1);
    }
}

/// The `::`-separated segments of `s`, scanning from index `i`.
pub open spec fn segs_from(s: Seq<char>, i: int) -> Seq<Seq<char>>
    recommends
        0 <= i <= s.len(),
    decreases s.len() - i,
    when 0 <= i <= s.len()
    via segs_from_decreases
{
    let e = seg_end(s, i);
    if e >= s.len() {
        seq![s.subrange(i, s.len() as int)]
    } else {
        seq![s.subrange(i, e)] + segs_from(s, e + 2)
    }
}

#[via_fn]
proof fn segs_from_decreases(s: Seq<char>, i: int) {
    lemma_seg_end(s, i);
}

/// The segments of a whole qualified path.
pub open spec fn path_segments(s: Seq<char>) -> Seq<Seq<char>> {
    segs_from(s, 0)
}

/// A path is valid when every segment is a valid identifier. An empty path
/// yields one empty segment and so is invalid.
pub open spec fn valid_path(s: Seq<char>) -> bool {
    forall|k: int|
        0 <= k < path_segments(s).len() ==> valid_segment(#[trigger] path_segments(s)[k])
}

/// The executable counterpart of `seg_end`.
fn seg_end_from(s: &str, i: usize, n: usize) -> (e: usize)
    requires
        n == s@.len(),
        i <= n,
    ensures
        e == seg_end(s@, i as int),
        i <= e <= n,
    decreases n - i,
{
    if i >= n {
        n
    } else if i + 1 < n && s.get_char(i) == ':' && s.get_char(i + 1) == ':' {
        i
    } else {
        seg_end_from(s, i + 1, n)
    }
}

/// Splits `s` into segments from index `i`, mirroring `segs_from`.
fn split_segments(s: &str, i: usize, n: usize) -> (segs: Vec<String>)
    requires
        n == s@.len(),
        i <= n,
    ensures
        segs@.len() == segs_from(s@, i as int).len(),
        forall|k: int|
            0 <= k < segs@.len() ==> (#[trigger] segs@[k])@ == segs_from(s@, i as int)[k],
    decreases n - i,
{
    proof {
        lemma_seg_end(s@, i as int);
    }
    let e = seg_end_from(s, i, n);
    let seg: String = s.substring_char(i, e).to_owned();
    if e >= n {
        let mut out: Vec<String> = Vec::new();
        out.push(seg);
        out
    } else {
        let mut rest = split_segments(s, e + 2, n);
        rest.insert(0, seg);
        rest
    }
}

/// Whether `c` may appear in an identifier.
fn is_ident_char_exec(c: char) -> (b: bool)
    ensures
        b == is_ident_char(c),
{
    ('a' <= c && c <= 'z') || ('A' <= c && c <= 'Z') || ('0' <= c && c <= '9') || c == '_'
}

/// Whether `seg` is a non-empty run of identifier characters.
fn valid_segment_exec(seg: &str) -> (b: bool)
    ensures
        b == valid_segment(seg@),
{
    let n = seg.unicode_len();
    if n == 0 {
        return false;
    }
    let mut k: usize = 0;
    while k < n
        invariant
            n == seg@.len(),
            k <= n,
            forall|j: int| 0 <= j < k ==> is_ident_char(#[trigger] seg@[j]),
        decreases n - k,
    {
        if !is_ident_char_exec(seg.get_char(k)) {
            return false;
        }
        k += 1;
    }
    true
}

/// Splits a qualified path into its segments, or reports `MalformedPath`
/// exactly when some segment is empty or holds a non-identifier character.
pub fn split_path(s: &String) -> (r: Result<Vec<String>, BuildError>)
    ensures
        match r {
            Ok(segs) => {
                &&& valid_path(s@)
                &&& segs@.len() == path_segments(s@).len()
                &&& forall|k: int|
                    0 <= k < segs@.len() ==> (#[trigger] segs@[k])@ == path_segments(s@)[k]
            },
            Err(e) => !valid_path(s@) && e == BuildError::MalformedPath(*s),
        },
{
    let n = s.as_str().unicode_len();
    let segs = split_segments(s.as_str(), 0, n);
    let mut k: usize = 0;
    while k < segs.len()
        invariant
            segs@.len() == path_segments(s@).len(),
            forall|j: int| 0 <= j < segs@.len() ==> (#[trigger] segs@[j])@ == path_segments(s@)[j],
            k <= segs@.len(),
            forall|j: int| 0 <= j < k ==> valid_segment(#[trigger] path_segments(s@)[j]),
        decreases segs@.len() - k,
    {
        if !valid_segment_exec(segs[k].as_str()) {
            return Err(BuildError::MalformedPath(s.clone()));
        }
        k += 1;
    }
    Ok(segs)
}

} // verus!
