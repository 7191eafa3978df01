//! Choosing the release asset to download: by a regular expression on its name and by how
//! well the name fits the platform.
use vstd::prelude::*;
use crate::release::Asset;
use crate::text::{chars_of, contains, ends_with, has_infix, has_suffix, lower, lower_vec};
use vstd::string::StringExecFns;

verus! {

#[verifier::external_type_specification]
#[verifier::external_body]
pub struct ExRegex(regex::Regex);

/// What `regex::Regex::new` says of a pattern: nothing when it accepts it, else the text of its
/// error.
pub uninterp spec fn regex_error(pattern: Seq<char>) -> Option<Seq<char>>;

/// Whether `regex::Regex::new` accepts the pattern.
pub open spec fn pattern_compiles(pattern: Seq<char>) -> bool {
    regex_error(pattern) is None
}

/// Whether the compiled pattern finds a match anywhere in the text (`regex::Regex::is_match`).
pub uninterp spec fn pattern_matches(pattern: Seq<char>, text: Seq<char>) -> bool;

/// A compiled regular expression together with the pattern it was compiled from.
pub struct NamePattern {
    source: String,
    regex: regex::Regex,
}

impl NamePattern {
    /// The pattern text this expression was compiled from.
    pub closed spec fn source(&self) -> Seq<char> {
        self.source@
    }
}

/// Compiles `pattern` with `regex::Regex::new`. The contract claims that compilation succeeds
/// exactly when `regex_error` names no error for the pattern, keeping the pattern text, and
/// that otherwise the error's display text is the one `regex_error` names.
#[verifier::external_body]
fn compile_pattern(pattern: &str) -> (r: Result<NamePattern, String>)
    ensures
        match regex_error(pattern@) {
            None => r matches Ok(p) && p.source() == pattern@,
            Some(m) => r matches Err(e) && e@ == m,
        },
{
    match regex::Regex::new(pattern) {
        Ok(regex) => Ok(NamePattern { source: pattern.to_string(), regex }),
        Err(e) => Err(e.to_string()),
    }
}

/// Tests a text with `regex::Regex::is_match`; the contract claims the answer is the one that
/// `pattern_matches` names for the pattern's source and the text.
#[verifier::external_body]
fn pattern_is_match(p: &NamePattern, text: &str) -> (r: bool)
    ensures
        r == pattern_matches(p.source(), text@),
{
    p.regex.is_match(text)
}

/// Why no asset could be chosen.
#[derive(Debug)]
pub enum AssetError {
    /// The pattern is not a valid regular expression (the regex error text).
    InvalidPattern(String),
    /// No asset name matches the pattern (the pattern).
    NoMatch(String),
}

/// The architecture label of a Rust target architecture name.
pub open spec fn architecture_label(target_arch: Seq<char>) -> Seq<char> {
    if target_arch == "x86_64"@ {
        "x64"@
    } else if target_arch == "aarch64"@ {
        "arm64"@
    } else if target_arch == "x86"@ || target_arch == "i686"@ {
        "x86"@
    } else {
        "x64"@
    }
}

/// Maps the architecture the program was built for (`std::env::consts::ARCH`) to the
/// label used in asset names.
pub fn detect_architecture(target_arch: &str) -> (r: &'static str)
    ensures
        r@ == architecture_label(target_arch@),
{
    if crate::text::same_text(target_arch, "x86_64") {
        "x64"
    } else if crate::text::same_text(target_arch, "aarch64") {
        "arm64"
    } else if crate::text::same_text(target_arch, "x86") || crate::text::same_text(
        target_arch,
        "i686",
    ) {
        "x86"
    } else {
        "x64"
    }
}

pub open spec fn names_x64(n: Seq<char>) -> bool {
    has_infix(n, "x86_64"@) || has_infix(n, "x64"@) || has_infix(n, "amd64"@) || has_infix(
        n,
        "win64"@,
    )
}

pub open spec fn names_arm64(n: Seq<char>) -> bool {
    has_infix(n, "arm64"@) || has_infix(n, "aarch64"@)
}

pub open spec fn names_x86(n: Seq<char>) -> bool {
    has_infix(n, "x86"@) || has_infix(n, "i686"@) || has_infix(n, "win32"@) || has_infix(
        n,
        "32-bit"@,
    )
}

/// How well an asset name suits a Windows machine of architecture `arch`.
pub open spec fn score_of(name: Seq<char>, arch: Seq<char>) -> int {
    let n = lower(name);
    let windows: int = if has_infix(n, "windows"@) || has_infix(n, "win64"@) || has_infix(
        n,
        "win-"@,
    ) || has_infix(n, "win32"@) {
        40
    } else {
        0
    };
    let zip: int = if has_suffix(n, ".zip"@) {
        8
    } else {
        0
    };
    let exe: int = if has_suffix(n, ".exe"@) {
        7
    } else {
        0
    };
    let portable: int = if has_infix(n, "portable"@) {
        4
    } else {
        0
    };
    let other_os: int = if has_infix(n, "linux"@) || has_infix(n, "darwin"@) || has_infix(
        n,
        "macos"@,
    ) || has_infix(n, "osx"@) {
        -100
    } else {
        0
    };
    let (x64, arm, x86) = (names_x64(n), names_arm64(n), names_x86(n));
    let fit: int = if arch == "arm64"@ {
        (if arm {
            45int
        } else {
            0
        }) + (if x64 || x86 {
            -35int
        } else {
            0
        })
    } else if arch == "x86"@ {
        (if x86 && !x64 {
            45int
        } else {
            0
        }) + (if x64 || arm {
            -35int
        } else {
            0
        })
    } else {
        (if x64 {
            45int
        } else {
            0
        }) + (if arm || (x86 && !x64) {
            -35int
        } else {
            0
        })
    };
    windows + zip + exe + portable + other_os + fit
}

/// Scores an asset name for the architecture `arch` (`x64`, `arm64` or `x86`): Windows
/// builds, archives, executables and portable builds gain, other operating systems lose,
/// and the requested architecture gains over the others.
pub fn score(name: &str, arch: &str) -> (r: i32)
    ensures
        r == score_of(name@, arch@),
{
    let n = lower_vec(chars_of(name).as_slice());
    let s = n.as_slice();
    let mut value: i32 = 0;
    if contains(s, "windows") || contains(s, "win64") || contains(s, "win-") || contains(s, "win32") {
        value = value + 40;
    }
    if ends_with(s, ".zip") {
        value = value + 8;
    }
    if ends_with(s, ".exe") {
        value = value + 7;
    }
    if contains(s, "portable") {
        value = value + 4;
    }
    if contains(s, "linux") || contains(s, "darwin") || contains(s, "macos") || contains(s, "osx") {
        value = value - 100;
    }
    let is_x64 = contains(s, "x86_64") || contains(s, "x64") || contains(s, "amd64") || contains(
        s,
        "win64",
    );
    let is_arm64 = contains(s, "arm64") || contains(s, "aarch64");
    let is_x86 = contains(s, "x86") || contains(s, "i686") || contains(s, "win32") || contains(
        s,
        "32-bit",
    );
    if crate::text::same_text(arch, "arm64") {
        if is_arm64 {
            value = value + 45;
        }
        if is_x64 || is_x86 {
            value = value - 35;
        }
    } else if crate::text::same_text(arch, "x86") {
        if is_x86 && !is_x64 {
            value = value + 45;
        }
        if is_x64 || is_arm64 {
            value = value - 35;
        }
    } else {
        if is_x64 {
            value = value + 45;
        }
        if is_arm64 || (is_x86 && !is_x64) {
            value = value - 35;
        }
    }
    value
}

/// The architecture that asset scoring uses: the build architecture for `auto`.
pub open spec fn effective_arch(architecture: Seq<char>, target_arch: Seq<char>) -> Seq<char> {
    if architecture == "auto"@ {
        architecture_label(target_arch)
    } else {
        architecture
    }
}

/// Asset `i` is the one chosen: its name matches, no matching asset scores higher, and every
/// matching asset before it scores lower.
pub open spec fn is_best(assets: Seq<Asset>, pattern: Seq<char>, arch: Seq<char>, i: int) -> bool {
    &&& 0 <= i < assets.len()
    &&& pattern_matches(pattern, assets[i].name@)
    &&& forall|j: int|
        0 <= j < assets.len() && pattern_matches(pattern, #[trigger] assets[j].name@) ==> score_of(
            assets[j].name@,
            arch,
        ) <= score_of(assets[i].name@, arch)
    &&& forall|j: int|
        0 <= j < i && pattern_matches(pattern, #[trigger] assets[j].name@) ==> score_of(
            assets[j].name@,
            arch,
        ) < score_of(assets[i].name@, arch)
}

pub open spec fn some_match(assets: Seq<Asset>, pattern: Seq<char>) -> bool {
    exists|j: int| 0 <= j < assets.len() && pattern_matches(pattern, #[trigger] assets[j].name@)
}

/// At most one asset is the chosen one.
pub proof fn lemma_best_unique(assets: Seq<Asset>, pattern: Seq<char>, arch: Seq<char>, i: int, k: int)
    requires
        is_best(assets, pattern, arch, i),
        is_best(assets, pattern, arch, k),
    ensures
        i == k,
{
    if i < k {
        assert(pattern_matches(pattern, assets[i].name@));
    } else if k < i {
        assert(pattern_matches(pattern, assets[k].name@));
    }
}

/// Chooses the asset to install: among the assets whose name matches `pattern`, the one with
/// the highest score for the architecture (`auto` meaning the build architecture
/// `target_arch`), the first of them in order when several score the same.
pub fn select_for_arch<'a>(
    assets: &'a [Asset],
    pattern: &str,
    architecture: &str,
    target_arch: &str,
) -> (r: Result<&'a Asset, AssetError>)
    ensures
        !pattern_compiles(pattern@) <==> r matches Err(AssetError::InvalidPattern(_)),
        r matches Err(AssetError::InvalidPattern(m)) ==> regex_error(pattern@) == Some(m@),
        pattern_compiles(pattern@) && !some_match(assets@, pattern@) ==> (r matches Err(
            AssetError::NoMatch(p),
        ) && p@ == pattern@),
        pattern_compiles(pattern@) && some_match(assets@, pattern@) ==> (r matches Ok(a) && exists|
            i: int,
        | is_best(assets@, pattern@, effective_arch(architecture@, target_arch@), i) && *a
            == assets@[i]),
{
    let regex = match compile_pattern(pattern) {
        Ok(p) => p,
        Err(e) => return Err(AssetError::InvalidPattern(e)),
    };
    let arch: &str = if crate::text::same_text(architecture, "auto") {
        detect_architecture(target_arch)
    } else {
        architecture
    };
    let ghost a = effective_arch(architecture@, target_arch@);
    assert(arch@ == a);
    let mut best: Option<usize> = None;
    let mut best_score: i32 = 0;
    let mut i: usize = 0;
    while i < assets.len()
        invariant
            regex.source() == pattern@,
            arch@ == a,
            i <= assets@.len(),
            match best {
                Some(b) => {
                    &&& b < i
                    &&& best_score == score_of(assets@[b as int].name@, a)
                    &&& pattern_matches(pattern@, assets@[b as int].name@)
                    &&& forall|j: int|
                        0 <= j < i && pattern_matches(pattern@, #[trigger] assets@[j].name@)
                            ==> score_of(assets@[j].name@, a) <= best_score
                    &&& forall|j: int|
                        0 <= j < b && pattern_matches(pattern@, #[trigger] assets@[j].name@)
                            ==> score_of(assets@[j].name@, a) < best_score
                },
                None => forall|j: int|
                    0 <= j < i ==> !pattern_matches(pattern@, #[trigger] assets@[j].name@),
            },
        decreases assets@.len() - i,
    {
        if pattern_is_match(&regex, assets[i].name.as_str()) {
            let s = score(assets[i].name.as_str(), arch);
            match best {
                None => {
                    best = Some(i);
                    best_score = s;
                },
                Some(_) => {
                    if s > best_score {
                        best = Some(i);
                        best_score = s;
                    }
                },
            }
        }
        i = i + 1;
    }
    match best {
        None => {
            let mut p = String::new();
            p.append(pattern);
            Err(AssetError::NoMatch(p))
        },
        Some(b) => {
            assert(is_best(assets@, pattern@, a, b as int));
            Ok(&assets[b])
        },
    }
}

/// [`select_for_arch`] with the architecture taken from the build (`auto`).
pub fn select<'a>(assets: &'a [Asset], pattern: &str, target_arch: &str) -> (r: Result<
    &'a Asset,
    AssetError,
>)
    ensures
        !pattern_compiles(pattern@) <==> r matches Err(AssetError::InvalidPattern(_)),
        r matches Err(AssetError::InvalidPattern(m)) ==> regex_error(pattern@) == Some(m@),
        pattern_compiles(pattern@) && !some_match(assets@, pattern@) ==> (r matches Err(
            AssetError::NoMatch(p),
        ) && p@ == pattern@),
        pattern_compiles(pattern@) && some_match(assets@, pattern@) ==> (r matches Ok(a) && exists|
            i: int,
        | is_best(assets@, pattern@, architecture_label(target_arch@), i) && *a == assets@[i]),
{
    proof {
        reveal_strlit("auto");
    }
    select_for_arch(assets, pattern, "auto", target_arch)
}

/// The first asset whose name matches `pattern`.
pub fn select_asset<'a>(assets: &'a [Asset], pattern: &str) -> (r: Result<&'a Asset, AssetError>)
    ensures
        !pattern_compiles(pattern@) <==> r matches Err(AssetError::InvalidPattern(_)),
        r matches Err(AssetError::InvalidPattern(m)) ==> regex_error(pattern@) == Some(m@),
        pattern_compiles(pattern@) && !some_match(assets@, pattern@) ==> (r matches Err(
            AssetError::NoMatch(p),
        ) && p@ == pattern@),
        pattern_compiles(pattern@) && some_match(assets@, pattern@) ==> (r matches Ok(a) && exists|
            i: int,
        | 0 <= i < assets@.len() && pattern_matches(pattern@, assets@[i].name@) && *a == assets@[i]
            && forall|j: int|
            0 <= j < i ==> !pattern_matches(pattern@, #[trigger] assets@[j].name@)),
{
    let regex = match compile_pattern(pattern) {
        Ok(p) => p,
        Err(e) => return Err(AssetError::InvalidPattern(e)),
    };
    let mut i: usize = 0;
    while i < assets.len()
        invariant
            regex.source() == pattern@,
            pattern_compiles(pattern@),
            i <= assets@.len(),
            forall|j: int| 0 <= j < i ==> !pattern_matches(pattern@, #[trigger] assets@[j].name@),
        decreases assets@.len() - i,
    {
        if pattern_is_match(&regex, assets[i].name.as_str()) {
            return Ok(&assets[i]);
        }
        i = i + 1;
    }
    let mut p = String::new();
    p.append(pattern);
    Err(AssetError::NoMatch(p))
}

/// Asset `i` is the first whose name matches `pattern`.
pub open spec fn is_first_match(assets: Seq<Asset>, pattern: Seq<char>, i: int) -> bool {
    &&& 0 <= i < assets.len()
    &&& pattern_matches(pattern, assets[i].name@)
    &&& forall|j: int| 0 <= j < i ==> !pattern_matches(pattern, #[trigger] assets[j].name@)
}

/// The message shown for an asset selection error.
pub fn describe(e: &AssetError) -> (r: String)
    ensures
        match e {
            AssetError::InvalidPattern(m) => r@ == "Invalid asset pattern: "@ + m@,
            AssetError::NoMatch(p) => r@ == "No release asset matches pattern: "@ + p@,
        },
{
    match e {
        AssetError::InvalidPattern(m) => {
            let mut r = String::from_str("Invalid asset pattern: ");
            r.append(m.as_str());
            r
        },
        AssetError::NoMatch(p) => {
            let mut r = String::from_str("No release asset matches pattern: ");
            r.append(p.as_str());
            r
        },
    }
}

/// Two asset names carry the same operating-system and packaging markers (Windows, `.zip`,
/// `.exe`, portable, another operating system), compared without regard to case.
pub open spec fn same_kind(a: Seq<char>, b: Seq<char>) -> bool {
    let (m, n) = (lower(a), lower(b));
    &&& (has_infix(m, "windows"@) || has_infix(m, "win64"@) || has_infix(m, "win-"@) || has_infix(
        m,
        "win32"@,
    )) == (has_infix(n, "windows"@) || has_infix(n, "win64"@) || has_infix(n, "win-"@)
        || has_infix(n, "win32"@))
    &&& has_suffix(m, ".zip"@) == has_suffix(n, ".zip"@)
    &&& has_suffix(m, ".exe"@) == has_suffix(n, ".exe"@)
    &&& has_infix(m, "portable"@) == has_infix(n, "portable"@)
    &&& (has_infix(m, "linux"@) || has_infix(m, "darwin"@) || has_infix(m, "macos"@) || has_infix(
        m,
        "osx"@,
    )) == (has_infix(n, "linux"@) || has_infix(n, "darwin"@) || has_infix(n, "macos"@)
        || has_infix(n, "osx"@))
}

/// The name names no architecture at all.
pub open spec fn names_no_arch(name: Seq<char>) -> bool {
    let n = lower(name);
    !names_x64(n) && !names_arm64(n) && !names_x86(n)
}

/// Between two names of the same kind, one of which names no architecture, the architecture
/// markers alone make the difference in score: a build for the requested architecture gains
/// 45 over the generic one, and a build for a foreign architecture only loses 35 against it.
pub proof fn lemma_architecture_fit(a: Seq<char>, b: Seq<char>)
    requires
        same_kind(a, b),
        names_no_arch(b),
    ensures
        names_x64(lower(a)) && !names_arm64(lower(a)) ==> score_of(a, "x64"@) == score_of(
            b,
            "x64"@,
        ) + 45,
        names_arm64(lower(a)) && !names_x64(lower(a)) ==> score_of(a, "x64"@) + 35 == score_of(
            b,
            "x64"@,
        ),
        names_x86(lower(a)) && !names_x64(lower(a)) && !names_arm64(lower(a)) ==> score_of(
            a,
            "x64"@,
        ) + 35 == score_of(b, "x64"@),
        names_arm64(lower(a)) && !names_x64(lower(a)) && !names_x86(lower(a)) ==> score_of(
            a,
            "arm64"@,
        ) == score_of(b, "arm64"@) + 45,
        (names_x64(lower(a)) || names_x86(lower(a))) && !names_arm64(lower(a)) ==> score_of(
            a,
            "arm64"@,
        ) + 35 == score_of(b, "arm64"@),
        names_x86(lower(a)) && !names_x64(lower(a)) && !names_arm64(lower(a)) ==> score_of(
            a,
            "x86"@,
        ) == score_of(b, "x86"@) + 45,
        (names_x64(lower(a)) || names_arm64(lower(a))) && !(names_x86(lower(a)) && !names_x64(
            lower(a),
        )) ==> score_of(a, "x86"@) + 35 == score_of(b, "x86"@),
{
    reveal_strlit("x64");
    reveal_strlit("arm64");
    reveal_strlit("x86");
    assert("x64"@ != "arm64"@);
    assert("x64"@ != "x86"@) by {
        assert("x64"@[1] != "x86"@[1]);
    }
    assert("arm64"@ != "x86"@);
}

/// On an x64 machine the asset chosen is never a build that names arm64 and not x64 while a
/// matching asset of the same kind that names no architecture exists.
pub proof fn lemma_x64_never_picks_arm64_only(
    assets: Seq<Asset>,
    pattern: Seq<char>,
    i: int,
    j: int,
)
    requires
        is_best(assets, pattern, "x64"@, i),
        0 <= j < assets.len(),
        pattern_matches(pattern, assets[j].name@),
        names_no_arch(assets[j].name@),
        same_kind(assets[i].name@, assets[j].name@),
    ensures
        !(names_arm64(lower(assets[i].name@)) && !names_x64(lower(assets[i].name@))),
{
    lemma_architecture_fit(assets[i].name@, assets[j].name@);
}

} // verus!
