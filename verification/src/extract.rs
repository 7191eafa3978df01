//! Safety rules for unpacking archives: entry paths must stay inside the destination, and
//! file count, file size, total size and compression ratio are bounded.
use vstd::prelude::*;
use crate::paths::{has_drive, is_separator, joined};
use crate::text::{chars_of, is_alpha};
use vstd::string::StringExecFns;

verus! {

/// Most files one archive may hold.
pub const MAX_FILES: usize = 10000;

/// Largest size of one unpacked file.
pub const MAX_FILE_BYTES: u64 = 1024 * 1024 * 1024;

/// Largest total size of the unpacked files.
pub const MAX_TOTAL_BYTES: u64 = 10 * 1024 * 1024 * 1024;

/// A path rooted on its own: a drive with a root (`C:\`, `C:/`) or a path starting with two
/// separators (UNC and device paths).
pub open spec fn is_absolute(p: Seq<char>) -> bool {
    (p.len() >= 3 && is_alpha(p[0]) && p[1] == ':' && is_separator(p[2])) || (p.len() >= 2
        && is_separator(p[0]) && is_separator(p[1]))
}

/// A path component may start at position `i`: at the start, after a separator, or right
/// after a drive prefix `X:`.
pub open spec fn component_start(p: Seq<char>, i: int) -> bool {
    i == 0 || is_separator(p[i - 1]) || (i == 2 && is_alpha(p[0]) && p[1] == ':')
}

/// The path has a `..` component (also one right after a drive prefix, as in `C:..\x`).
pub open spec fn has_parent_component(p: Seq<char>) -> bool {
    exists|i: int|
        0 <= i && i + 2 <= p.len() && #[trigger] p[i] == '.' && p[i + 1] == '.' && component_start(
            p,
            i,
        ) && (i + 2 == p.len() || is_separator(p[i + 2]))
}

fn is_component_start(p: &[char], i: usize) -> (r: bool)
    requires
        i < p@.len(),
    ensures
        r == component_start(p@, i as int),
{
    i == 0 || is_sep(p[i - 1]) || (i == 2 && (('a' <= p[0] && p[0] <= 'z') || ('A' <= p[0]
        && p[0] <= 'Z')) && p[1] == ':')
}

fn is_sep(c: char) -> (r: bool)
    ensures
        r == is_separator(c),
{
    c == '/' || c == '\\'
}

/// Whether a path is absolute on Windows: a drive letter, `:` and a separator, or two leading
/// separators.
pub fn is_absolute_path(path: &str) -> (r: bool)
    ensures
        r == is_absolute(path@),
{
    let p = chars_of(path);
    let n = p.len();
    let letter = n >= 3 && (('a' <= p[0] && p[0] <= 'z') || ('A' <= p[0] && p[0] <= 'Z'));
    (letter && p[1] == ':' && is_sep(p[2])) || (n >= 2 && is_sep(p[0]) && is_sep(p[1]))
}

/// The path is not relative to the folder it is joined to: it starts with a separator (a
/// root, as in `\x` or `//server`) or with a drive prefix (as in `C:\x` or `C:x`).
pub open spec fn rooted_or_prefixed(p: Seq<char>) -> bool {
    (p.len() > 0 && is_separator(p[0])) || has_drive(p)
}

/// Accepts an archive entry path only if it has no root, no drive prefix and no `..`
/// component.
pub fn safe_relative(path: &str) -> (r: Result<(), String>)
    ensures
        r is Ok <==> !rooted_or_prefixed(path@) && !has_parent_component(path@),
        rooted_or_prefixed(path@) ==> (r matches Err(e) && e@
            == "absolute archive paths are not allowed"@),
        !rooted_or_prefixed(path@) && has_parent_component(path@) ==> (r matches Err(e) && e@
            == "archive paths containing '..' are not allowed"@),
{
    let p = chars_of(path);
    let n = p.len();
    if (n > 0 && is_sep(p[0])) || (n >= 2 && (('a' <= p[0] && p[0] <= 'z') || ('A' <= p[0]
        && p[0] <= 'Z')) && p[1] == ':') {
        return Err(String::from_str("absolute archive paths are not allowed"));
    }
    let mut i: usize = 0;
    while i < n && n - i >= 2
        invariant
            n == p@.len(),
            p@ == path@,
            !rooted_or_prefixed(p@),
            forall|k: int|
                0 <= k < i && k + 2 <= n ==> !(#[trigger] p@[k] == '.' && p@[k + 1] == '.'
                    && component_start(p@, k) && (k + 2 == n || is_separator(p@[k + 2]))),
        decreases n - i,
    {
        if p[i] == '.' && p[i + 1] == '.' && is_component_start(p.as_slice(), i) && (i + 2 == n
            || is_sep(p[i + 2])) {
            assert(p@[i as int] == '.');
            return Err(String::from_str("archive paths containing '..' are not allowed"));
        }
        i = i + 1;
    }
    Ok(())
}

/// What an archive entry is.
#[derive(Debug, Clone, Copy, PartialEq, Eq, Structural)]
pub enum EntryKind {
    Directory,
    File,
    SymbolicLink,
    Other,
}

/// What to do with an admitted entry.
#[derive(Debug, Clone, Copy, PartialEq, Eq, Structural)]
pub enum EntryAction {
    CreateDirectory,
    WriteFile,
}

/// The files admitted so far and their total size.
pub struct ExtractBudget {
    pub files: usize,
    pub total: u64,
}

impl ExtractBudget {
    /// Nothing admitted yet.
    pub fn new() -> (b: ExtractBudget)
        ensures
            b.files == 0,
            b.total == 0,
    {
        ExtractBudget { files: 0, total: 0 }
    }
}

/// Whether a zip entry's Unix mode marks a symbolic link.
pub fn is_symlink_mode(mode: u32) -> (r: bool)
    ensures
        r == (mode & 0o170000u32 == 0o120000u32),
{
    mode & 0o170000u32 == 0o120000u32
}

/// Admits the next archive entry, named `name`, of `size` bytes (`compressed_size` for zip
/// entries), or refuses it. Directories are always admitted; symbolic links and other
/// special entries never; a file is counted and refused when it makes more than 10 000 files,
/// is larger than 1 GiB, brings the total above 10 GiB, or expands more than 100 times.
pub fn admit_entry(
    budget: &mut ExtractBudget,
    kind: EntryKind,
    name: &str,
    size: u64,
    compressed_size: Option<u64>,
) -> (r: Result<EntryAction, String>)
    ensures
        kind == EntryKind::Directory ==> r == Ok::<EntryAction, String>(EntryAction::CreateDirectory)
            && *final(budget) == *old(budget),
        kind == EntryKind::SymbolicLink ==> (r matches Err(e) && e@
            == "symbolic links are not allowed: "@ + name@),
        kind == EntryKind::Other ==> (r matches Err(e) && e@ == "unsupported archive entry type: "@
            + name@),
        kind == EntryKind::File ==> {
            let files = old(budget).files + 1;
            let total = if old(budget).total + size > u64::MAX {
                u64::MAX as int
            } else {
                old(budget).total + size
            };
            let ratio_exceeded = match compressed_size {
                Some(c) => c > 0 && size / c > 100,
                None => false,
            };
            if files > MAX_FILES {
                r matches Err(e) && e@ == "archive file-count limit exceeded"@
            } else if size > MAX_FILE_BYTES {
                r matches Err(e) && e@ == "archive file too large: "@ + name@
            } else if total > MAX_TOTAL_BYTES {
                r matches Err(e) && e@ == "archive extracted-size limit exceeded"@
            } else if ratio_exceeded {
                r matches Err(e) && e@ == "archive decompression ratio exceeded: "@ + name@
            } else {
                r == Ok::<EntryAction, String>(EntryAction::WriteFile) && final(budget).files
                    == files && final(budget).total == total
            }
        },
        r == Ok::<EntryAction, String>(EntryAction::WriteFile) ==> final(budget).files <= MAX_FILES
            && final(budget).total <= MAX_TOTAL_BYTES,
{
    match kind {
        EntryKind::Directory => Ok(EntryAction::CreateDirectory),
        EntryKind::SymbolicLink => {
            let mut e = String::from_str("symbolic links are not allowed: ");
            e.append(name);
            Err(e)
        },
        EntryKind::Other => {
            let mut e = String::from_str("unsupported archive entry type: ");
            e.append(name);
            Err(e)
        },
        EntryKind::File => {
            if budget.files >= MAX_FILES {
                budget.files = MAX_FILES;
                return Err(String::from_str("archive file-count limit exceeded"));
            }
            budget.files = budget.files + 1;
            if size > MAX_FILE_BYTES {
                let mut e = String::from_str("archive file too large: ");
                e.append(name);
                return Err(e);
            }
            budget.total = budget.total.saturating_add(size);
            if budget.total > MAX_TOTAL_BYTES {
                return Err(String::from_str("archive extracted-size limit exceeded"));
            }
            match compressed_size {
                Some(c) => {
                    if c > 0 && size / c > 100 {
                        let mut e = String::from_str("archive decompression ratio exceeded: ");
                        e.append(name);
                        return Err(e);
                    }
                },
                None => {},
            }
            Ok(EntryAction::WriteFile)
        },
    }
}

/// Refuses a file whose copy turned out larger than 1 GiB (the copy reads at most one byte more).
pub fn check_copied(copied: u64, name: &str) -> (r: Result<(), String>)
    ensures
        copied > MAX_FILE_BYTES ==> (r matches Err(e) && e@ == "archive file too large: "@ + name@),
        copied <= MAX_FILE_BYTES ==> r is Ok,
{
    if copied > MAX_FILE_BYTES {
        let mut e = String::from_str("archive file too large: ");
        e.append(name);
        Err(e)
    } else {
        Ok(())
    }
}

/// An admitted archive entry stays inside the destination: joined to a destination folder
/// `dest` (neither empty nor a bare drive `X:`), an entry path that `safe_relative` accepts
/// gives `dest`, a separator (the one `dest` ends with, or an added `\`), then the entry path,
/// which has no root, no drive prefix and no `..` component.
pub proof fn lemma_admitted_path_stays_inside(dest: Seq<char>, name: Seq<char>)
    requires
        dest.len() > 0,
        !(has_drive(dest) && dest.len() == 2),
        !rooted_or_prefixed(name),
        !has_parent_component(name),
    ensures
        joined(dest, name) == (if is_separator(dest.last()) {
            dest
        } else {
            dest + seq!['\\']
        }) + name,
        joined(dest, name).take(dest.len() as int) == dest,
        is_separator(joined(dest, name)[dest.len() - 1]) || is_separator(joined(dest, name)[dest.len() as int]),
{
    let j = joined(dest, name);
    if is_separator(dest.last()) {
        assert(j == dest + name);
        assert(j[dest.len() - 1] == dest.last());
    } else {
        assert(j == dest + seq!['\\'] + name);
        assert(j[dest.len() as int] == '\\');
    }
    assert(j.take(dest.len() as int) =~= dest);
}

} // verus!
