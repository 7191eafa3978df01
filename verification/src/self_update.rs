//! Updating this program itself from its own release feed.
use vstd::prelude::*;
use crate::assets::{
    architecture_label, describe, is_best, is_first_match, pattern_compiles, regex_error, select,
    select_asset,
    some_match,
};
use crate::config::{in_language, tr, Language};
use crate::release::{Asset, FetchResult};
use crate::versions::{as_ints, version_key, version_key_of};
use vstd::string::StringExecFns;

verus! {

/// Compares number sequences position by position, a missing position counting as 0.
pub open spec fn padded_order(a: Seq<int>, b: Seq<int>) -> int
    decreases a.len() + b.len(),
{
    if a.len() == 0 && b.len() == 0 {
        0
    } else {
        let x = if a.len() > 0 {
            a[0]
        } else {
            0
        };
        let y = if b.len() > 0 {
            b[0]
        } else {
            0
        };
        if x > y {
            1
        } else if x < y {
            -1
        } else {
            padded_order(
                if a.len() > 0 {
                    a.drop_first()
                } else {
                    a
                },
                if b.len() > 0 {
                    b.drop_first()
                } else {
                    b
                },
            )
        }
    }
}

/// The order of two release tags by their first four numbers (1, 0 or -1).
pub open spec fn release_order(a: Seq<char>, b: Seq<char>) -> int {
    padded_order(version_key_of(a), version_key_of(b))
}

pub open spec fn rest(s: Seq<int>, i: int) -> Seq<int> {
    if i <= s.len() {
        s.skip(i)
    } else {
        seq![]
    }
}

proof fn lemma_padded_step(a: Seq<int>, b: Seq<int>, i: int)
    requires
        0 <= i,
        i < a.len() || i < b.len(),
        (if i < a.len() { a[i] } else { 0 }) == (if i < b.len() { b[i] } else { 0 }),
    ensures
        padded_order(rest(a, i), rest(b, i)) == padded_order(rest(a, i + 1), rest(b, i + 1)),
{
    if i < a.len() {
        assert(a.skip(i).drop_first() == a.skip(i + 1));
    }
    if i < b.len() {
        assert(b.skip(i).drop_first() == b.skip(i + 1));
    }
    if i >= a.len() {
        assert(rest(a, i).len() == 0);
        assert(rest(a, i + 1) == rest(a, i));
    }
    if i >= b.len() {
        assert(rest(b, i).len() == 0);
        assert(rest(b, i + 1) == rest(b, i));
    }
}

/// Compares two release tags by their first four numbers, missing numbers counting as 0:
/// 1 when `a` is newer, -1 when it is older, 0 when they are the same version.
pub fn compare_versions(a: &str, b: &str) -> (r: i32)
    ensures
        r == release_order(a@, b@),
{
    let left = version_key(a);
    let right = version_key(b);
    let ghost x = as_ints(left@);
    let ghost y = as_ints(right@);
    assert(x.skip(0) == x && y.skip(0) == y);
    let mut i: usize = 0;
    while i < left.len() || i < right.len()
        invariant
            x == as_ints(left@),
            y == as_ints(right@),
            x == version_key_of(a@),
            y == version_key_of(b@),
            padded_order(x, y) == padded_order(rest(x, i as int), rest(y, i as int)),
            i <= left@.len() || i <= right@.len(),
        decreases left@.len() + right@.len() - i,
    {
        let l: u64 = if i < left.len() {
            left[i]
        } else {
            0
        };
        let r: u64 = if i < right.len() {
            right[i]
        } else {
            0
        };
        proof {
            if i < left@.len() {
                assert(rest(x, i as int)[0] == x[i as int]);
            }
            if i < right@.len() {
                assert(rest(y, i as int)[0] == y[i as int]);
            }
        }
        if l > r {
            return 1;
        }
        if l < r {
            return -1;
        }
        proof {
            lemma_padded_step(x, y, i as int);
        }
        i = i + 1;
    }
    proof {
        assert(rest(x, i as int).len() == 0 && rest(y, i as int).len() == 0);
    }
    0
}

pub open spec fn head(s: Seq<int>) -> int {
    if s.len() > 0 {
        s[0]
    } else {
        0
    }
}

pub open spec fn tail(s: Seq<int>) -> Seq<int> {
    if s.len() > 0 {
        s.drop_first()
    } else {
        s
    }
}

proof fn lemma_padded_unfold(a: Seq<int>, b: Seq<int>)
    ensures
        padded_order(a, b) == (if a.len() == 0 && b.len() == 0 {
            0
        } else if head(a) > head(b) {
            1
        } else if head(a) < head(b) {
            -1
        } else {
            padded_order(tail(a), tail(b))
        }),
{
}

/// The release order gives -1, 0 or 1, flips sign when its arguments swap, and relates
/// every sequence to itself by 0.
pub proof fn lemma_padded_order_basics(a: Seq<int>, b: Seq<int>)
    ensures
        padded_order(a, b) == 0 || padded_order(a, b) == 1 || padded_order(a, b) == -1,
        padded_order(a, b) == -padded_order(b, a),
        padded_order(a, a) == 0,
    decreases a.len() + b.len(),
{
    lemma_padded_unfold(a, b);
    lemma_padded_unfold(b, a);
    if !(a.len() == 0 && b.len() == 0) {
        lemma_padded_order_basics(tail(a), tail(b));
    }
    lemma_padded_order_reflexive(a);
}

proof fn lemma_padded_order_reflexive(a: Seq<int>)
    ensures
        padded_order(a, a) == 0,
    decreases a.len(),
{
    lemma_padded_unfold(a, a);
    if a.len() > 0 {
        lemma_padded_order_reflexive(tail(a));
    }
}

/// The release order is transitive, both for "older than" and for "same version as".
pub proof fn lemma_padded_order_transitive(a: Seq<int>, b: Seq<int>, c: Seq<int>)
    ensures
        padded_order(a, b) < 0 && padded_order(b, c) < 0 ==> padded_order(a, c) < 0,
        padded_order(a, b) == 0 && padded_order(b, c) == 0 ==> padded_order(a, c) == 0,
    decreases a.len() + b.len() + c.len(),
{
    lemma_padded_unfold(a, b);
    lemma_padded_unfold(b, c);
    lemma_padded_unfold(a, c);
    if a.len() + b.len() + c.len() > 0 {
        if head(a) == head(b) && head(b) == head(c) {
            lemma_padded_order_transitive(tail(a), tail(b), tail(c));
            if a.len() == 0 && c.len() == 0 {
                lemma_padded_order_basics(tail(a), tail(c));
            }
        }
    }
}

/// Trailing zero components do not change a version: `1.2` and `1.2.0` are the same release.
pub proof fn lemma_padded_order_trailing_zero(a: Seq<int>, b: Seq<int>)
    ensures
        padded_order(a.push(0), b) == padded_order(a, b),
    decreases a.len() + b.len(),
{
    lemma_padded_unfold(a.push(0), b);
    lemma_padded_unfold(a, b);
    if a.len() > 0 {
        assert(a.push(0)[0] == a[0]);
        assert(tail(a.push(0)) == tail(a).push(0));
        lemma_padded_order_trailing_zero(tail(a), tail(b));
    } else {
        assert(tail(a.push(0)) == a);
        if b.len() > 0 {
            lemma_padded_zero_left(tail(b));
            lemma_padded_zero_left(b);
        }
    }
}

proof fn lemma_padded_zero_left(b: Seq<int>)
    ensures
        padded_order(seq![], b) == padded_order(seq![0], b),
{
    let z: Seq<int> = seq![];
    lemma_padded_unfold(z, b);
    lemma_padded_unfold(seq![0], b);
    assert(tail(seq![0]) == z);
    if b.len() > 0 {
        assert(tail(z) == z);
    }
}

/// Tags compare by their release order, which is a total preorder ignoring the text around
/// the numbers.
pub proof fn lemma_release_order_laws(a: Seq<char>, b: Seq<char>, c: Seq<char>)
    ensures
        release_order(a, b) == -release_order(b, a),
        release_order(a, a) == 0,
        release_order(a, b) < 0 && release_order(b, c) < 0 ==> release_order(a, c) < 0,
{
    lemma_padded_order_basics(version_key_of(a), version_key_of(b));
    lemma_padded_order_basics(version_key_of(a), version_key_of(a));
    lemma_padded_order_transitive(version_key_of(a), version_key_of(b), version_key_of(c));
}

/// What a self-update does next.
pub enum SelfUpdate {
    /// Nothing: the running version is the newest (the message).
    UpToDate(String),
    /// Download this executable and verify it against this checksum file.
    Install { asset: Asset, checksum: Asset },
}

/// Decides a self-update from the lookup of this program's latest release: nothing when it is
/// not newer than `current_version` (`v` and the package version), otherwise the
/// `DistronomiconDesktop.exe` asset and the `SHA256SUMS.txt` checksum file (names in any case).
pub fn run(language: Language, fetched: FetchResult, current_version: &str, target_arch: &str) -> (r:
    Result<SelfUpdate, String>)
    ensures
        match fetched.release {
            None => r matches Err(e) && e@ == in_language(
                language,
                "Nenhuma versão de autoatualização está disponível."@,
                "No self-update release is available."@,
            ),
            Some(rel) => if release_order(rel.tag_name@, current_version@) <= 0 {
                r matches Ok(SelfUpdate::UpToDate(m)) && m@ == in_language(
                    language,
                    "O Distronomicon Desktop já está na versão mais recente"@,
                    "Distronomicon Desktop is already up to date"@,
                ) + ": "@ + current_version@
            } else {
                let exe = "(?i)^DistronomiconDesktop\\.exe$"@;
                let sums = "(?i)^SHA256SUMS\\.txt$"@;
                &&& r is Ok <==> (pattern_compiles(exe) && some_match(rel.assets@, exe)
                    && pattern_compiles(sums) && some_match(rel.assets@, sums))
                &&& r matches Ok(SelfUpdate::Install { asset, checksum }) ==> (exists|i: int|
                    is_best(rel.assets@, exe, architecture_label(target_arch@), i) && asset
                        == rel.assets@[i]) && (exists|j: int|
                    is_first_match(rel.assets@, sums, j) && checksum == rel.assets@[j])
                &&& !pattern_compiles(exe) ==> (r matches Err(e) && e@ == "Invalid asset pattern: "@
                    + regex_error(exe)->Some_0)
                &&& pattern_compiles(exe) && some_match(rel.assets@, exe) && !pattern_compiles(sums)
                    ==> (r matches Err(e) && e@ == "Invalid asset pattern: "@ + regex_error(
                    sums,
                )->Some_0)
                &&& pattern_compiles(exe) && !some_match(rel.assets@, exe) ==> (r matches Err(e)
                    && e@ == "No release asset matches pattern: "@ + exe)
                &&& pattern_compiles(exe) && some_match(rel.assets@, exe) && pattern_compiles(sums)
                    && !some_match(rel.assets@, sums) ==> (r matches Err(e) && e@
                    == "No release asset matches pattern: "@ + sums)
            }
        },
{
    let latest = match fetched.release {
        Some(r) => r,
        None => return Err(String::from_str(tr(language,
            "Nenhuma versão de autoatualização está disponível.",
            "No self-update release is available."))),
    };
    if compare_versions(latest.tag_name.as_str(), current_version) <= 0 {
        let mut m = String::from_str(tr(language,
            "O Distronomicon Desktop já está na versão mais recente",
            "Distronomicon Desktop is already up to date"));
        m.append(": ");
        m.append(current_version);
        return Ok(SelfUpdate::UpToDate(m));
    }
    let asset = match select(latest.assets.as_slice(), "(?i)^DistronomiconDesktop\\.exe$", target_arch) {
        Ok(a) => a.duplicate(),
        Err(e) => return Err(describe(&e)),
    };
    let checksum = match select_asset(latest.assets.as_slice(), "(?i)^SHA256SUMS\\.txt$") {
        Ok(a) => a.duplicate(),
        Err(e) => return Err(describe(&e)),
    };
    Ok(SelfUpdate::Install { asset, checksum })
}

/// The batch script that replaces the running executable `exe` by `new_exe` after it exits,
/// starts it again and deletes itself.
pub fn apply_script(new_exe: &str, exe: &str) -> (r: String)
    ensures
        r@ == "@echo off\r\nping 127.0.0.1 -n 3 >nul\r\nmove /Y \""@ + new_exe@ + "\" \""@ + exe@
            + "\" >nul\r\nstart \"\" \""@ + exe@ + "\"\r\ndel \"%~f0\"\r\n"@,
{
    let mut s = String::from_str("@echo off\r\nping 127.0.0.1 -n 3 >nul\r\nmove /Y \"");
    s.append(new_exe);
    s.append("\" \"");
    s.append(exe);
    s.append("\" >nul\r\nstart \"\" \"");
    s.append(exe);
    s.append("\"\r\ndel \"%~f0\"\r\n");
    s
}

} // verus!
