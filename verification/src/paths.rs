//! Windows file-system paths as text: joining a component to a path the way Windows does.
use vstd::prelude::*;
use crate::text::{chars_of, copy_range, is_alpha, string_of};
use vstd::string::StringExecFns;

verus! {

pub open spec fn is_separator(c: char) -> bool {
    c == '/' || c == '\\'
}

/// The path starts with a drive prefix `X:`.
pub open spec fn has_drive(p: Seq<char>) -> bool {
    p.len() >= 2 && is_alpha(p[0]) && p[1] == ':'
}

/// The path starts with two separators: a UNC (or device) prefix.
pub open spec fn is_unc(p: Seq<char>) -> bool {
    p.len() >= 2 && is_separator(p[0]) && is_separator(p[1])
}

/// The first position from `i` on that holds a separator (the length when there is none).
pub open spec fn next_separator(p: Seq<char>, i: int) -> int
    decreases p.len() - i,
{
    if i >= p.len() {
        p.len() as int
    } else if is_separator(p[i]) {
        i
    } else {
        next_separator(p, i + 1)
    }
}

/// The length of the path's prefix: `X:`, `\\server\share`, or none.
pub open spec fn prefix_len(p: Seq<char>) -> int {
    if has_drive(p) {
        2
    } else if is_unc(p) {
        let server_end = next_separator(p, 2);
        if server_end >= p.len() {
            p.len() as int
        } else {
            next_separator(p, server_end + 1)
        }
    } else {
        0
    }
}

/// `part` joined to `base` as Windows joins paths: a part with a prefix (a drive or UNC path)
/// replaces the base; a part starting with a separator keeps only the base's prefix; otherwise
/// the part is appended after a `\`, which is left out when the base is empty, ends in a
/// separator, or is a bare drive `X:`. (Verbatim `\\?\` paths are read as UNC paths.)
pub open spec fn joined(base: Seq<char>, part: Seq<char>) -> Seq<char> {
    if has_drive(part) || is_unc(part) {
        part
    } else if part.len() > 0 && is_separator(part[0]) {
        base.take(prefix_len(base)) + part
    } else if base.len() == 0 || is_separator(base.last()) || (has_drive(base) && base.len() == 2) {
        base + part
    } else {
        base + seq!['\\'] + part
    }
}

fn is_sep(c: char) -> (r: bool)
    ensures
        r == is_separator(c),
{
    c == '/' || c == '\\'
}

fn drive(p: &[char]) -> (r: bool)
    ensures
        r == has_drive(p@),
{
    p.len() >= 2 && (('a' <= p[0] && p[0] <= 'z') || ('A' <= p[0] && p[0] <= 'Z')) && p[1] == ':'
}

fn next_sep(p: &[char], i: usize) -> (r: usize)
    requires
        i <= p@.len(),
    ensures
        r == next_separator(p@, i as int),
        i <= r <= p@.len(),
    decreases p@.len() - i,
{
    if i >= p.len() {
        p.len()
    } else if is_sep(p[i]) {
        i
    } else {
        next_sep(p, i + 1)
    }
}

fn prefix_length(p: &[char]) -> (r: usize)
    ensures
        r == prefix_len(p@),
        r <= p@.len(),
{
    if drive(p) {
        2
    } else if p.len() >= 2 && is_sep(p[0]) && is_sep(p[1]) {
        let server_end = next_sep(p, 2);
        if server_end >= p.len() {
            p.len()
        } else {
            next_sep(p, server_end + 1)
        }
    } else {
        0
    }
}

/// Joins `part` to `base` as Windows does (see [`joined`]).
pub fn join(base: &str, part: &str) -> (r: String)
    ensures
        r@ == joined(base@, part@),
{
    let b = chars_of(base);
    let q = chars_of(part);
    if drive(q.as_slice()) || (q.len() >= 2 && is_sep(q[0]) && is_sep(q[1])) {
        return String::from_str(part);
    }
    if q.len() > 0 && is_sep(q[0]) {
        let k = prefix_length(b.as_slice());
        let head = copy_range(b.as_slice(), 0, k);
        let mut r = string_of(head.as_slice());
        r.append(part);
        return r;
    }
    let mut r = string_of(b.as_slice());
    if !(b.len() == 0 || is_sep(b[b.len() - 1]) || (drive(b.as_slice()) && b.len() == 2)) {
        r.push('\\');
    }
    r.append(part);
    r
}

} // verus!
