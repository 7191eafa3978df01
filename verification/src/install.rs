//! The installation layout (`<root>/<app>/releases/<tag>`, `bin`, `current.txt`), the active
//! tag, activation and archive recognition.
use vstd::prelude::*;
use crate::paths::{is_separator, join, joined};
use crate::text::{chars_of, ends_with, has_suffix, lower, lower_vec, string_of, trim, trim_chars};
use vstd::string::StringExecFns;

verus! {

/// The active tag from the contents of `current.txt` (`None` when the file is missing):
/// the trimmed text, unless it is blank.
pub fn current_tag(contents: Option<&str>) -> (r: Option<String>)
    ensures
        match contents {
            None => r is None,
            Some(t) => if trim(t@).len() == 0 {
                r is None
            } else {
                r matches Some(s) && s@ == trim(t@)
            },
        },
{
    match contents {
        None => None,
        Some(t) => {
            let v = trim_chars(chars_of(t).as_slice());
            if v.len() == 0 {
                None
            } else {
                Some(string_of(v.as_slice()))
            }
        },
    }
}

/// `<root>/<app>/releases/<tag>`.
pub open spec fn release_dir_of(root: Seq<char>, app: Seq<char>, tag: Seq<char>) -> Seq<char> {
    joined(joined(joined(root, app), "releases"@), tag)
}

/// The folder that holds the files of the release `tag`.
pub fn release_dir(root: &str, app: &str, tag: &str) -> (r: String)
    ensures
        r@ == release_dir_of(root@, app@, tag@),
{
    let a = join(root, app);
    let rel = join(a.as_str(), "releases");
    join(rel.as_str(), tag)
}

/// The paths that activating a release touches.
pub struct Activation {
    /// The release being activated.
    pub release_dir: String,
    /// The folder the managed program runs from.
    pub bin_dir: String,
    /// Where the new `bin` is assembled before it replaces the old one.
    pub bin_new: String,
    /// Where the old `bin` is kept until the new one is in place.
    pub bin_old: String,
    /// The file naming the active tag.
    pub current_file: String,
    /// The temporary file written before it replaces `current_file`.
    pub current_temp: String,
}

/// Plans the activation of release `tag`, which must exist as a folder
/// (`release_is_dir`); otherwise the error names the missing folder.
pub fn activate_release(root: &str, app: &str, tag: &str, release_is_dir: bool) -> (r: Result<
    Activation,
    String,
>)
    ensures
        release_is_dir ==> (r matches Ok(a) && a.release_dir@ == release_dir_of(root@, app@, tag@)
            && a.bin_dir@ == joined(joined(root@, app@), "bin"@) && a.bin_new@ == joined(
            joined(root@, app@),
            "bin.new"@,
        ) && a.bin_old@ == joined(joined(root@, app@), "bin.old"@) && a.current_file@ == joined(
            joined(root@, app@),
            "current.txt"@,
        ) && a.current_temp@ == joined(joined(root@, app@), "current.tmp"@)),
        !release_is_dir ==> (r matches Err(e) && e@ == "release not found: "@ + release_dir_of(
            root@,
            app@,
            tag@,
        )),
{
    let dir = release_dir(root, app, tag);
    if !release_is_dir {
        let mut e = String::from_str("release not found: ");
        e.append(dir.as_str());
        return Err(e);
    }
    let app_root = join(root, app);
    Ok(Activation {
        release_dir: dir,
        bin_dir: join(app_root.as_str(), "bin"),
        bin_new: join(app_root.as_str(), "bin.new"),
        bin_old: join(app_root.as_str(), "bin.old"),
        current_file: join(app_root.as_str(), "current.txt"),
        current_temp: join(app_root.as_str(), "current.tmp"),
    })
}

/// The archive formats that an asset can be unpacked from.
#[derive(Debug, Clone, Copy, PartialEq, Eq, Structural)]
pub enum ArchiveKind {
    Zip,
    TarGz,
    TarBz2,
    TarXz,
    TarZst,
}

/// The archive format an asset name announces (ignoring ASCII case), if any.
pub open spec fn archive_kind_of(name: Seq<char>) -> Option<ArchiveKind> {
    let n = lower(name);
    if has_suffix(n, ".zip"@) {
        Some(ArchiveKind::Zip)
    } else if has_suffix(n, ".tar.gz"@) || has_suffix(n, ".tgz"@) {
        Some(ArchiveKind::TarGz)
    } else if has_suffix(n, ".tar.bz2"@) || has_suffix(n, ".tbz2"@) {
        Some(ArchiveKind::TarBz2)
    } else if has_suffix(n, ".tar.xz"@) || has_suffix(n, ".txz"@) {
        Some(ArchiveKind::TarXz)
    } else if has_suffix(n, ".tar.zst"@) {
        Some(ArchiveKind::TarZst)
    } else {
        None
    }
}

/// How an asset is unpacked into the staging folder: as which archive, or (`None`) not at all,
/// the downloaded file then being installed as it is.
pub fn unpack(asset_name: &str) -> (r: Option<ArchiveKind>)
    ensures
        r == archive_kind_of(asset_name@),
{
    let n = lower_vec(chars_of(asset_name).as_slice());
    let s = n.as_slice();
    if ends_with(s, ".zip") {
        Some(ArchiveKind::Zip)
    } else if ends_with(s, ".tar.gz") || ends_with(s, ".tgz") {
        Some(ArchiveKind::TarGz)
    } else if ends_with(s, ".tar.bz2") || ends_with(s, ".tbz2") {
        Some(ArchiveKind::TarBz2)
    } else if ends_with(s, ".tar.xz") || ends_with(s, ".txz") {
        Some(ArchiveKind::TarXz)
    } else if ends_with(s, ".tar.zst") {
        Some(ArchiveKind::TarZst)
    } else {
        None
    }
}

} // verus!
