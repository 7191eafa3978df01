//! Update safeguards: disk-space estimates, configurable backups, state recovery,
//! signature summaries and the active release folder.
use vstd::prelude::*;
use crate::config::{in_language, tr, Language};
use crate::install::{release_dir, release_dir_of};
use crate::paths::{join, joined};
use crate::release::Asset;
use crate::state::State;
use crate::text::{chars_of, decimal, decimal_text, lower, string_of, trim, trim_chars};
use vstd::string::StringExecFns;

verus! {

/// Space assumed when an asset does not tell its size: 256 MiB.
pub const UNKNOWN_SIZE_ESTIMATE: u64 = 256 * 1024 * 1024;

/// The disk space an update is expected to need: three times the asset's size (download,
/// unpacked copy and `bin` copy, at most the largest `u64`), or 256 MiB when the size is
/// unknown.
pub open spec fn required_bytes(asset: Asset) -> int {
    if asset.size == 0 {
        UNKNOWN_SIZE_ESTIMATE as int
    } else if asset.size * 3 > u64::MAX {
        u64::MAX as int
    } else {
        asset.size * 3
    }
}

/// The disk space an update is expected to need (see [`required_bytes`]).
pub fn estimated_required_bytes(asset: &Asset) -> (r: u64)
    ensures
        r == required_bytes(*asset),
{
    if asset.size == 0 {
        UNKNOWN_SIZE_ESTIMATE
    } else if asset.size > u64::MAX / 3 {
        u64::MAX
    } else {
        asset.size * 3
    }
}

/// Mebibytes, rounded down.
pub open spec fn mib(bytes: u64) -> nat {
    (bytes as nat) / 1048576
}

/// Accepts an update when `available` bytes cover the `required` ones, giving back the
/// available space; otherwise reports both in MiB.
pub fn ensure_free_space(available: u64, required: u64) -> (r: Result<u64, String>)
    ensures
        available >= required ==> r == Ok::<u64, String>(available),
        available < required ==> (r matches Err(e) && e@
            == "Insufficient disk space: required about "@ + decimal_text(mib(required))
            + " MB, available "@ + decimal_text(mib(available)) + " MB"@),
{
    if available < required {
        let mut e = String::from_str("Insufficient disk space: required about ");
        let a = decimal(required / 1024 / 1024);
        e.append(a.as_str());
        e.append(" MB, available ");
        let b = decimal(available / 1024 / 1024);
        e.append(b.as_str());
        e.append(" MB");
        return Err(e);
    }
    Ok(available)
}

pub open spec fn is_item_separator(c: char) -> bool {
    c == ';' || c == '\n' || c == '\r'
}

/// The pieces of `s` between separators (`;`, line feeds, carriage returns); there is always
/// at least one.
pub open spec fn pieces(s: Seq<char>) -> Seq<Seq<char>>
    decreases s.len(),
{
    if s.len() == 0 {
        seq![seq![]]
    } else {
        let p = pieces(s.drop_last());
        if is_item_separator(s.last()) {
            p.push(seq![])
        } else {
            p.drop_last().push(p.last().push(s.last()))
        }
    }
}

/// The trimmed pieces that are not blank, in order.
pub open spec fn nonblank(ps: Seq<Seq<char>>) -> Seq<Seq<char>>
    decreases ps.len(),
{
    if ps.len() == 0 {
        seq![]
    } else if trim(ps.last()).len() == 0 {
        nonblank(ps.drop_last())
    } else {
        nonblank(ps.drop_last()).push(trim(ps.last()))
    }
}

pub open spec fn texts(v: Seq<String>) -> Seq<Seq<char>> {
    v.map_values(|s: String| s@)
}

proof fn lemma_pieces_nonempty(s: Seq<char>)
    ensures
        pieces(s).len() > 0,
    decreases s.len(),
{
    if s.len() > 0 {
        lemma_pieces_nonempty(s.drop_last());
    }
}

/// The files and folders to back up before an update: the pieces of the setting separated by
/// `;` or line breaks, trimmed, without blank ones.
pub fn backup_items(backup_paths: &str) -> (r: Vec<String>)
    ensures
        texts(r@) == nonblank(pieces(backup_paths@)),
{
    let v = chars_of(backup_paths);
    let mut out: Vec<String> = Vec::new();
    let mut cur: Vec<char> = Vec::new();
    let mut i: usize = 0;
    while i < v.len()
        invariant
            i <= v@.len(),
            pieces(v@.take(i as int)).len() > 0,
            cur@ == pieces(v@.take(i as int)).last(),
            texts(out@) == nonblank(pieces(v@.take(i as int)).drop_last()),
        decreases v.len() - i,
    {
        let c = v[i];
        proof {
            assert(v@.take(i + 1).drop_last() == v@.take(i as int));
            assert(v@.take(i + 1).last() == c);
            lemma_pieces_nonempty(v@.take(i as int));
        }
        let ghost before = pieces(v@.take(i as int));
        if c == ';' || c == '\n' || c == '\r' {
            let t = trim_chars(cur.as_slice());
            if t.len() > 0 {
                out.push(string_of(t.as_slice()));
            }
            cur = Vec::new();
            proof {
                let after = before.push(seq![]);
                assert(after.drop_last() == before);
                assert(before == before.drop_last().push(before.last()));
                assert(texts(out@) =~= nonblank(after.drop_last()));
            }
        } else {
            cur.push(c);
            proof {
                let after = before.drop_last().push(before.last().push(c));
                assert(after.drop_last() == before.drop_last());
            }
        }
        i = i + 1;
    }
    assert(v@.take(i as int) == v@);
    let t = trim_chars(cur.as_slice());
    if t.len() > 0 {
        out.push(string_of(t.as_slice()));
    }
    proof {
        let ps = pieces(v@);
        assert(ps == ps.drop_last().push(ps.last()));
        assert(texts(out@) =~= nonblank(ps));
    }
    out
}

/// Where a backup item is taken from: an absolute path as it is, anything else inside the
/// application's `bin` folder.
pub open spec fn backup_source_of(install_root: Seq<char>, app: Seq<char>, item: Seq<char>) -> Seq<char> {
    if crate::extract::is_absolute(item) {
        item
    } else {
        joined(joined(joined(install_root, app), "bin"@), item)
    }
}

/// A backup before an update: the folder it goes to and the files or folders copied into it.
pub struct BackupPlan {
    pub root: String,
    pub sources: Vec<String>,
}

/// Plans the backup of the configured items at time `stamp` (seconds since the Unix epoch):
/// none without items, else into `<state_root>/<app>/backups/<stamp>`, each item taken from
/// [`backup_source_of`].
pub fn backup_plan(
    state_root: &str,
    install_root: &str,
    app: &str,
    backup_paths: &str,
    stamp: u64,
) -> (r: Option<BackupPlan>)
    ensures
        nonblank(pieces(backup_paths@)).len() == 0 ==> r is None,
        nonblank(pieces(backup_paths@)).len() > 0 ==> (r matches Some(p) && p.root@ == joined(
            joined(joined(state_root@, app@), "backups"@),
            decimal_text(stamp as nat),
        ) && texts(p.sources@) == nonblank(pieces(backup_paths@)).map_values(
            |item: Seq<char>| backup_source_of(install_root@, app@, item),
        )),
{
    let items = backup_items(backup_paths);
    if items.len() == 0 {
        return None;
    }
    let a = join(state_root, app);
    let b = join(a.as_str(), "backups");
    let n = decimal(stamp);
    let root = join(b.as_str(), n.as_str());
    let app_root = join(install_root, app);
    let bin = join(app_root.as_str(), "bin");
    let ghost wanted = nonblank(pieces(backup_paths@)).map_values(
        |item: Seq<char>| backup_source_of(install_root@, app@, item),
    );
    let mut sources: Vec<String> = Vec::new();
    let mut k: usize = 0;
    while k < items.len()
        invariant
            k <= items@.len(),
            texts(items@) == nonblank(pieces(backup_paths@)),
            bin@ == joined(joined(install_root@, app@), "bin"@),
            wanted == nonblank(pieces(backup_paths@)).map_values(
                |item: Seq<char>| backup_source_of(install_root@, app@, item),
            ),
            texts(sources@) == wanted.take(k as int),
        decreases items@.len() - k,
    {
        let item = &items[k];
        assert(texts(items@)[k as int] == item@);
        let source = if crate::extract::is_absolute_path(item.as_str()) {
            item.clone()
        } else {
            join(bin.as_str(), item.as_str())
        };
        let ghost before_push = sources@;
        sources.push(source);
        proof {
            assert(texts(sources@) =~= texts(before_push).push(source@));
            assert(wanted.take(k + 1) =~= wanted.take(k as int).push(wanted[k as int]));
        }
        k = k + 1;
    }
    assert(wanted.take(k as int) =~= wanted);
    Some(BackupPlan { root, sources })
}

/// What state recovery decided.
pub struct Recovery {
    /// The rebuilt state to save, if one was rebuilt.
    pub state: Option<State>,
    /// The message for the user.
    pub message: String,
}

/// Rebuilds a lost state from the installation: nothing when the state file loads
/// (`state_valid`); otherwise from the active tag, else from the newest release folder
/// (`newest_release`), installed at time `now`.
pub fn recover_state(
    language: Language,
    state_valid: bool,
    current: Result<Option<String>, String>,
    newest_release: Option<String>,
    now: u64,
) -> (r: Result<Recovery, String>)
    ensures
        state_valid ==> (r matches Ok(rec) && rec.state is None && rec.message@ == in_language(
            language,
            "Estado válido; nenhuma recuperação necessária."@,
            "State is valid; no recovery is required."@,
        )),
        !state_valid ==> match current {
            Err(e) => r == Err::<Recovery, String>(e),
            Ok(tag) => {
                let chosen = match tag {
                    Some(t) => Some(t),
                    None => newest_release,
                };
                match chosen {
                    None => r matches Err(e) && e@ == in_language(
                        language,
                        "Nenhuma release instalada foi encontrada para reconstruir o estado."@,
                        "No installed release was found to rebuild state."@,
                    ),
                    Some(t) => r matches Ok(rec) && rec.state matches Some(s) && s.latest_tag@
                        == t@ && s.etag@.len() == 0 && s.last_modified@.len() == 0
                        && s.installed_at_unix == now && rec.message@ == in_language(
                        language,
                        "Estado reconstruído"@,
                        "State rebuilt"@,
                    ) + ": "@ + t@,
                }
            },
        },
{
    if state_valid {
        return Ok(Recovery {
            state: None,
            message: String::from_str(tr(language, "Estado válido; nenhuma recuperação necessária.",
                "State is valid; no recovery is required.")),
        });
    }
    let tag = match current {
        Err(e) => return Err(e),
        Ok(Some(t)) => t,
        Ok(None) => match newest_release {
            Some(t) => t,
            None => return Err(String::from_str(tr(language,
                "Nenhuma release instalada foi encontrada para reconstruir o estado.",
                "No installed release was found to rebuild state."))),
        },
    };
    let mut message = String::from_str(tr(language, "Estado reconstruído", "State rebuilt"));
    message.append(": ");
    message.append(tag.as_str());
    let state = State {
        latest_tag: tag,
        etag: String::new(),
        last_modified: String::new(),
        installed_at_unix: now,
    };
    Ok(Recovery { state: Some(state), message })
}

/// The signature status of one executable, as reported for it (or the error of asking).
pub struct ExeStatus {
    pub path: String,
    pub status: Result<String, String>,
}

/// Scans signature statuses from `s[i]` on, with `signed` valid ones counted before: the
/// first error or invalid signature ends the scan, else the number of valid signatures.
pub open spec fn signature_scan(s: Seq<ExeStatus>, i: int, signed: nat) -> Result<nat, Seq<char>>
    decreases s.len() - i,
{
    if i < 0 || i >= s.len() {
        Ok(signed)
    } else {
        match s[i].status {
            Err(e) => Err(e@),
            Ok(st) => if lower(st@) == lower("Valid"@) {
                signature_scan(s, i + 1, signed + 1)
            } else if lower(st@) == lower("NotSigned"@) || st@.len() == 0 {
                signature_scan(s, i + 1, signed)
            } else {
                Err("Authenticode validation failed for "@ + s[i].path@ + ": "@ + st@)
            },
        }
    }
}

/// Summarizes the Authenticode check of the installed executables: valid signatures are
/// counted, unsigned files pass, any other status (or failure to ask) rejects the release.
pub fn verify_authenticode_tree(enabled: bool, statuses: &[ExeStatus]) -> (r: Result<String, String>)
    ensures
        !enabled ==> (r matches Ok(m) && m@ == "Authenticode disabled"@),
        enabled ==> match signature_scan(statuses@, 0, 0) {
            Err(e) => r matches Err(x) && x@ == e,
            Ok(n) => r matches Ok(m) && m@ == if n == 0 {
                "No signed executable found"@
            } else {
                "Authenticode valid for "@ + decimal_text(n) + " executable(s)"@
            },
        },
{
    if !enabled {
        return Ok(String::from_str("Authenticode disabled"));
    }
    let mut signed: u64 = 0;
    let mut i: usize = 0;
    while i < statuses.len()
        invariant
            enabled,
            i <= statuses@.len(),
            signed <= i,
            signature_scan(statuses@, 0, 0) == signature_scan(statuses@, i as int, signed as nat),
        decreases statuses.len() - i,
    {
        match &statuses[i].status {
            Err(e) => {
                return Err(e.clone());
            },
            Ok(st) => {
                if crate::text::same_text_ignoring_case(st.as_str(), "Valid") {
                    signed = signed + 1;
                } else if crate::text::same_text_ignoring_case(st.as_str(), "NotSigned")
                    || st.as_str().unicode_len() == 0 {
                } else {
                    let mut e = String::from_str("Authenticode validation failed for ");
                    e.append(statuses[i].path.as_str());
                    e.append(": ");
                    e.append(st.as_str());
                    return Err(e);
                }
            },
        }
        i = i + 1;
    }
    if signed == 0 {
        Ok(String::from_str("No signed executable found"))
    } else {
        let mut m = String::from_str("Authenticode valid for ");
        let n = decimal(signed);
        m.append(n.as_str());
        m.append(" executable(s)");
        Ok(m)
    }
}

/// The XML escape of one character.
pub open spec fn xml_escape_char(c: char) -> Seq<char> {
    if c == '&' {
        "&amp;"@
    } else if c == '<' {
        "&lt;"@
    } else if c == '>' {
        "&gt;"@
    } else if c == '"' {
        "&quot;"@
    } else if c == '\'' {
        "&apos;"@
    } else {
        seq![c]
    }
}

/// The text with XML special characters escaped.
pub open spec fn xml_escaped(s: Seq<char>) -> Seq<char>
    decreases s.len(),
{
    if s.len() == 0 {
        seq![]
    } else {
        xml_escaped(s.drop_last()) + xml_escape_char(s.last())
    }
}

/// Escapes a text for a notification's XML payload.
pub fn ps_escape(value: &str) -> (r: String)
    ensures
        r@ == xml_escaped(value@),
{
    let v = chars_of(value);
    let mut out = String::new();
    let mut i: usize = 0;
    while i < v.len()
        invariant
            i <= v@.len(),
            out@ == xml_escaped(v@.take(i as int)),
        decreases v.len() - i,
    {
        let c = v[i];
        proof {
            assert(v@.take(i + 1).drop_last() == v@.take(i as int));
            assert(v@.take(i + 1).last() == c);
        }
        if c == '&' {
            out.append("&amp;");
        } else if c == '<' {
            out.append("&lt;");
        } else if c == '>' {
            out.append("&gt;");
        } else if c == '"' {
            out.append("&quot;");
        } else if c == '\'' {
            out.append("&apos;");
        } else {
            out.push(c);
        }
        i = i + 1;
    }
    assert(v@.take(i as int) == v@);
    out
}

/// The folder of the active release, from the active tag (as read from `current.txt`).
pub fn current_release_path(root: &str, app: &str, current: Result<Option<String>, String>) -> (r:
    Result<String, String>)
    ensures
        match current {
            Err(e) => r == Err::<String, String>(e),
            Ok(None) => r matches Err(e) && e@ == "No active release"@,
            Ok(Some(t)) => r matches Ok(p) && p@ == release_dir_of(root@, app@, t@),
        },
{
    match current {
        Err(e) => Err(e),
        Ok(None) => Err(String::from_str("No active release")),
        Ok(Some(t)) => Ok(release_dir(root, app, t.as_str())),
    }
}

} // verus!
