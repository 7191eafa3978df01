//! Stored files: atomic writes through hidden sibling files, and reading a file that such a
//! write may have left only in its backup copy.
use vstd::prelude::*;
use crate::paths::is_separator;
use crate::text::{chars_of, string_of};

verus! {

/// What reading one stored file gave.
pub enum Stored<T> {
    /// The file does not exist.
    Missing,
    /// The file exists but could not be read or parsed (the error text).
    Unreadable(String),
    /// The file's contents.
    Found(T),
}

/// The value a load gives from the primary file and its backup: the primary when it can be
/// read, else the backup when it exists, else nothing (both missing) or the error.
pub open spec fn recovered<T>(primary: Stored<T>, backup: Stored<T>) -> Result<Option<T>, String> {
    match primary {
        Stored::Found(t) => Ok(Some(t)),
        Stored::Missing => match backup {
            Stored::Missing => Ok(None),
            Stored::Unreadable(e) => Err(e),
            Stored::Found(t) => Ok(Some(t)),
        },
        Stored::Unreadable(e) => match backup {
            Stored::Missing => Err(e),
            Stored::Unreadable(e2) => Err(e2),
            Stored::Found(t) => Ok(Some(t)),
        },
    }
}

/// Loads a stored value: the primary file when it can be read, else its backup.
pub fn recover<T>(primary: Stored<T>, backup: Stored<T>) -> (r: Result<Option<T>, String>)
    ensures
        r == recovered(primary, backup),
{
    match primary {
        Stored::Found(t) => Ok(Some(t)),
        Stored::Missing => match backup {
            Stored::Missing => Ok(None),
            Stored::Unreadable(e) => Err(e),
            Stored::Found(t) => Ok(Some(t)),
        },
        Stored::Unreadable(e) => match backup {
            Stored::Missing => Err(e),
            Stored::Unreadable(e2) => Err(e2),
            Stored::Found(t) => Ok(Some(t)),
        },
    }
}

/// Index just past the last path separator (0 when there is none).
pub open spec fn name_start(p: Seq<char>) -> int
    decreases p.len(),
{
    if p.len() == 0 {
        0
    } else if is_separator(p.last()) {
        p.len() as int
    } else {
        name_start(p.drop_last())
    }
}

proof fn lemma_name_start(p: Seq<char>)
    ensures
        0 <= name_start(p) <= p.len(),
        forall|i: int| name_start(p) <= i < p.len() ==> !is_separator(#[trigger] p[i]),
        name_start(p) > 0 ==> is_separator(p[name_start(p) - 1]),
    decreases p.len(),
{
    if p.len() > 0 && !is_separator(p.last()) {
        lemma_name_start(p.drop_last());
        assert forall|i: int| name_start(p) <= i < p.len() implies !is_separator(#[trigger] p[i]) by {
            if i < p.len() - 1 {
                assert(p[i] == p.drop_last()[i]);
            }
        }
    }
}

fn find_name_start(v: &[char]) -> (r: usize)
    ensures
        r == name_start(v@),
{
    let mut k = v.len();
    assert(v@.subrange(0, k as int) == v@);
    while k > 0 && !(v[k - 1] == '/' || v[k - 1] == '\\')
        invariant
            k <= v@.len(),
            name_start(v@) == name_start(v@.subrange(0, k as int)),
        decreases k,
    {
        proof {
            assert(v@.subrange(0, k as int).drop_last() == v@.subrange(0, k - 1));
        }
        k = k - 1;
    }
    k
}

/// A hidden file beside `path` for an atomic write: `.<name><suffix>` in the same folder.
pub open spec fn hidden_sibling(path: Seq<char>, suffix: Seq<char>) -> Seq<char> {
    let k = name_start(path);
    path.take(k) + seq!['.'] + path.skip(k) + suffix
}

/// The backup that an atomic write of `path` keeps: `.<name>.bak` beside the file.
pub open spec fn atomic_backup_of(path: Seq<char>) -> Seq<char> {
    hidden_sibling(path, ".bak"@)
}

fn hidden_sibling_path(path: &str, suffix: &str) -> (r: String)
    ensures
        r@ == hidden_sibling(path@, suffix@),
{
    let v = chars_of(path);
    let k = find_name_start(v.as_slice());
    proof {
        lemma_name_start(v@);
    }
    let dir = crate::text::copy_range(v.as_slice(), 0, k);
    let name = crate::text::copy_range(v.as_slice(), k, v.len());
    let mut r = string_of(dir.as_slice());
    r.push('.');
    let n = string_of(name.as_slice());
    vstd::string::StringExecFns::append(&mut r, n.as_str());
    vstd::string::StringExecFns::append(&mut r, suffix);
    r
}

/// The backup path of a file written atomically.
pub fn atomic_backup_path(path: &str) -> (r: String)
    ensures
        r@ == atomic_backup_of(path@),
{
    hidden_sibling_path(path, ".bak")
}

/// The temporary file an atomic write of `path` is written to first: `.<name>.tmp` beside it.
pub fn atomic_temp_path(path: &str) -> (r: String)
    ensures
        r@ == hidden_sibling(path@, ".tmp"@),
{
    hidden_sibling_path(path, ".tmp")
}

} // verus!
