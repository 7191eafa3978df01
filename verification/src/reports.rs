//! The check, version, unlock, history, rollback and diagnostics actions: their decisions and
//! messages.
use vstd::prelude::*;
use crate::config::{in_language, tr, Language};
use crate::history::HistoryEntry;
use crate::plan::UpdatePlan;
use crate::release::{FetchResult, Validators};
use crate::state::State;
use crate::text::{chars_of, trim, trim_str};
use vstd::string::StringExecFns;

verus! {

/// The installed version: the tag in `current.txt` (`current`, as read), else the one the
/// saved state names; an error reading `current.txt` is passed on.
pub fn version(language: Language, current: Result<Option<String>, String>, saved: Option<State>) -> (r:
    Result<String, String>)
    ensures
        match current {
            Err(e) => r == Err::<String, String>(e),
            Ok(t) => match crate::plan::resolved_current(t, saved) {
                Some(tag) => r matches Ok(m) && m@ == in_language(
                    language,
                    "Versão instalada"@,
                    "Installed version"@,
                ) + ": "@ + tag,
                None => r matches Ok(m) && m@ == in_language(
                    language,
                    "Nenhuma versão instalada."@,
                    "No version installed."@,
                ),
            },
        },
{
    let tag = match current {
        Err(e) => return Err(e),
        Ok(Some(t)) => Some(t),
        Ok(None) => match saved {
            Some(s) => if s.latest_tag.as_str().unicode_len() > 0 {
                Some(s.latest_tag)
            } else {
                None
            },
            None => None,
        },
    };
    match tag {
        Some(t) => {
            let mut m = String::from_str(tr(language, "Versão instalada", "Installed version"));
            m.append(": ");
            m.append(t.as_str());
            Ok(m)
        },
        None => Ok(String::from_str(tr(language, "Nenhuma versão instalada.", "No version installed."))),
    }
}

/// The answer to a forced unlock, given whether removing the lock file worked (a missing lock
/// file counts as removed).
pub fn unlock(language: Language, removed: Result<(), String>) -> (r: Result<String, String>)
    ensures
        match removed {
            Err(e) => r == Err::<String, String>(e),
            Ok(_) => r matches Ok(m) && m@ == in_language(language, "Lock removido."@, "Lock removed."@),
        },
{
    match removed {
        Err(e) => Err(e),
        Ok(()) => Ok(String::from_str(tr(language, "Lock removido.", "Lock removed."))),
    }
}

/// The result of a check: the message, and whether to raise a desktop notification.
pub struct CheckReport {
    pub message: String,
    pub notify: bool,
}

/// The check message for a plan: up to date, update available (with the release page), or
/// install available; the last two notify.
pub fn check(language: Language, plan: &UpdatePlan) -> (r: CheckReport)
    ensures
        match plan.current {
            Some(c) => if c@ == plan.release.tag_name@ {
                !r.notify && r.message@ == in_language(language, "Atualizado"@, "Up to date"@)
                    + ": "@ + c@
            } else {
                r.notify && r.message@ == in_language(
                    language,
                    "Atualização disponível"@,
                    "Update available"@,
                ) + ": "@ + c@ + " → "@ + plan.release.tag_name@ + "\n"@ + plan.release.html_url@
            },
            None => r.notify && r.message@ == in_language(
                language,
                "Instalação disponível"@,
                "Install available"@,
            ) + ": "@ + plan.release.tag_name@ + "\n"@ + plan.release.html_url@,
        },
{
    match &plan.current {
        Some(c) => {
            if crate::text::same_text(c.as_str(), plan.release.tag_name.as_str()) {
                let mut m = String::from_str(tr(language, "Atualizado", "Up to date"));
                m.append(": ");
                m.append(c.as_str());
                CheckReport { message: m, notify: false }
            } else {
                let mut m = String::from_str(tr(language, "Atualização disponível", "Update available"));
                m.append(": ");
                m.append(c.as_str());
                m.append(" → ");
                m.append(plan.release.tag_name.as_str());
                m.append("\n");
                m.append(plan.release.html_url.as_str());
                CheckReport { message: m, notify: true }
            }
        },
        None => {
            let mut m = String::from_str(tr(language, "Instalação disponível", "Install available"));
            m.append(": ");
            m.append(plan.release.tag_name.as_str());
            m.append("\n");
            m.append(plan.release.html_url.as_str());
            CheckReport { message: m, notify: true }
        },
    }
}

/// The state saved by a check that found `current` active: the tag, the validators of the
/// lookup where they are set, and the time `now` if no install time was recorded.
pub fn checked_state(existing: Option<State>, current: &str, validators: &Validators, now: u64) -> (s:
    State)
    ensures
        s.latest_tag@ == current@,
        s.etag@ == (if validators.etag@.len() > 0 {
            validators.etag@
        } else {
            match existing {
                Some(e) => e.etag@,
                None => Seq::<char>::empty(),
            }
        }),
        s.last_modified@ == (if validators.last_modified@.len() > 0 {
            validators.last_modified@
        } else {
            match existing {
                Some(e) => e.last_modified@,
                None => Seq::<char>::empty(),
            }
        }),
        s.installed_at_unix == (match existing {
            Some(e) => if e.installed_at_unix == 0 {
                now
            } else {
                e.installed_at_unix
            },
            None => now,
        }),
{
    let mut value = match existing {
        Some(e) => e,
        None => State::default(),
    };
    value.latest_tag = String::from_str(current);
    if validators.etag.as_str().unicode_len() > 0 {
        value.etag = validators.etag.clone();
    }
    if validators.last_modified.as_str().unicode_len() > 0 {
        value.last_modified = validators.last_modified.clone();
    }
    if value.installed_at_unix == 0 {
        value.installed_at_unix = now;
    }
    value
}

/// The answer of a check against the latest release: "not modified" keeps the active tag,
/// otherwise the release is compared with the active tag.
pub fn check_fetched(language: Language, current: Option<String>, fetched: &FetchResult) -> (r: Result<
    String,
    String,
>)
    ensures
        fetched.not_modified ==> match current {
            Some(c) => r matches Ok(m) && m@ == in_language(language, "Atualizado"@, "Up to date"@)
                + ": "@ + c@,
            None => r matches Ok(m) && m@ == in_language(
                language,
                "Nenhuma versão instalada."@,
                "No version installed."@,
            ),
        },
        !fetched.not_modified ==> match fetched.release {
            None => r matches Err(e) && e@ == in_language(
                language,
                "Nenhuma release disponível."@,
                "No release available."@,
            ),
            Some(rel) => match current {
                Some(c) => if c@ == rel.tag_name@ {
                    r matches Ok(m) && m@ == in_language(language, "Atualizado"@, "Up to date"@)
                        + ": "@ + c@
                } else {
                    r matches Ok(m) && m@ == in_language(
                        language,
                        "Atualização disponível"@,
                        "Update available"@,
                    ) + ": "@ + c@ + " → "@ + rel.tag_name@ + "\n"@ + rel.html_url@
                },
                None => r matches Ok(m) && m@ == in_language(
                    language,
                    "Instalação disponível"@,
                    "Install available"@,
                ) + ": "@ + rel.tag_name@ + "\n"@ + rel.html_url@,
            },
        },
{
    if fetched.not_modified {
        return match current {
            Some(c) => {
                let mut m = String::from_str(tr(language, "Atualizado", "Up to date"));
                m.append(": ");
                m.append(c.as_str());
                Ok(m)
            },
            None => Ok(String::from_str(tr(language, "Nenhuma versão instalada.", "No version installed."))),
        };
    }
    let rel = match &fetched.release {
        Some(r) => r,
        None => return Err(String::from_str(tr(language, "Nenhuma release disponível.",
            "No release available."))),
    };
    match current {
        Some(c) => {
            if crate::text::same_text(c.as_str(), rel.tag_name.as_str()) {
                let mut m = String::from_str(tr(language, "Atualizado", "Up to date"));
                m.append(": ");
                m.append(c.as_str());
                Ok(m)
            } else {
                let mut m = String::from_str(tr(language, "Atualização disponível", "Update available"));
                m.append(": ");
                m.append(c.as_str());
                m.append(" → ");
                m.append(rel.tag_name.as_str());
                m.append("\n");
                m.append(rel.html_url.as_str());
                Ok(m)
            }
        },
        None => {
            let mut m = String::from_str(tr(language, "Instalação disponível", "Install available"));
            m.append(": ");
            m.append(rel.tag_name.as_str());
            m.append("\n");
            m.append(rel.html_url.as_str());
            Ok(m)
        },
    }
}

/// The history listing with its title; a blank listing says there are no entries.
pub fn history(language: Language, body: &str) -> (r: String)
    ensures
        r@ == in_language(language, "Histórico recente"@, "Recent history"@) + "\n"@ + if trim(
            body@,
        ).len() == 0 {
            in_language(language, "Nenhuma entrada no histórico."@, "No history entries."@)
        } else {
            body@
        },
{
    let mut r = String::from_str(tr(language, "Histórico recente", "Recent history"));
    r.append("\n");
    let t = trim_str(body);
    if t.as_str().unicode_len() == 0 {
        r.append(tr(language, "Nenhuma entrada no histórico.", "No history entries."));
    } else {
        r.append(body);
    }
    r
}

/// The history entry of a rollback from `before` to `after`, at time `now`.
pub fn rollback(before: &str, after: &str, succeeded: bool, now: u64) -> (e: HistoryEntry)
    ensures
        e.timestamp_unix == now,
        e.action@ == "rollback"@,
        e.from_version@ == before@,
        e.to_version@ == after@,
        e.asset@.len() == 0,
        e.sha256@.len() == 0,
        e.result@ == (if succeeded {
            "success"@
        } else {
            "failed"@
        }),
{
    proof {
        reveal_strlit("");
    }
    HistoryEntry::new("rollback", before, after, "", "", if succeeded {
        "success"
    } else {
        "failed"
    }, now)
}

/// A line break shown as a space.
pub open spec fn flat_char(c: char) -> char {
    if c == '\n' {
        ' '
    } else {
        c
    }
}

/// The text of a desktop notification for a check message: its line breaks become spaces.
pub fn notification_text(message: &str) -> (r: String)
    ensures
        r@ == message@.map_values(|c: char| flat_char(c)),
{
    let v = chars_of(message);
    let mut out = String::new();
    let mut i: usize = 0;
    while i < v.len()
        invariant
            i <= v@.len(),
            out@ == v@.take(i as int).map_values(|c: char| flat_char(c)),
        decreases v.len() - i,
    {
        let c = v[i];
        out.push(if c == '\n' {
            ' '
        } else {
            c
        });
        proof {
            assert(v@.take(i + 1).map_values(|c: char| flat_char(c)) == v@.take(i as int).map_values(
                |c: char| flat_char(c),
            ).push(flat_char(c)));
        }
        i = i + 1;
    }
    assert(v@.take(i as int) == v@);
    out
}

/// The first position from `from` on of the active release `current` in the list `rs` that
/// has a release after it.
pub open spec fn position_before_last(rs: Seq<String>, current: Seq<char>, from: int) -> Option<int>
    decreases rs.len() - from,
{
    if from < 0 || from + 1 >= rs.len() {
        None
    } else if rs[from]@ == current {
        Some(from)
    } else {
        position_before_last(rs, current, from + 1)
    }
}

/// Chooses the release to roll back to: the one listed right after the active release
/// `current` in the newest-first list `releases`.
pub fn rollback_target(language: Language, releases: &[String], current: &str) -> (r: Result<String, String>)
    ensures
        match position_before_last(releases@, current@, 0) {
            Some(i) => r matches Ok(t) && t@ == releases@[i + 1]@,
            None => r matches Err(e) && e@ == in_language(
                language,
                "Nenhuma versão anterior disponível para reverter."@,
                "No previous release available to roll back to."@,
            ),
        },
{
    let mut i: usize = 0;
    while i < releases.len() && i + 1 < releases.len()
        invariant
            i <= releases@.len(),
            position_before_last(releases@, current@, 0) == position_before_last(releases@, current@, i as int),
        decreases releases.len() - i,
    {
        if crate::text::same_text(releases[i].as_str(), current) {
            return Ok(releases[i + 1].clone());
        }
        i = i + 1;
    }
    Err(String::from_str(tr(
        language,
        "Nenhuma versão anterior disponível para reverter.",
        "No previous release available to roll back to.",
    )))
}

/// The message of a finished rollback to `tag`.
pub fn rollback_message(language: Language, tag: &str) -> (r: String)
    ensures
        r@ == in_language(language, "Versão restaurada"@, "Release restored"@) + ": "@ + tag@,
{
    let mut m = String::from_str(tr(language, "Versão restaurada", "Release restored"));
    m.append(": ");
    m.append(tag);
    m
}

/// The diagnostics report: the form's settings check, the GitHub connectivity test, the active
/// release and whether an update lock is left behind.
pub fn doctor_report(
    language: Language,
    settings: Result<(), String>,
    connectivity: Result<(), String>,
    current: Option<String>,
    locked: bool,
) -> (r: String)
    ensures
        r@ == in_language(language, "Diagnóstico"@, "Doctor"@) + "\n"@ + in_language(
            language,
            "Configuração"@,
            "Settings"@,
        ) + ": "@ + match settings {
            Ok(_) => "OK"@,
            Err(e) => e@,
        } + "\nGitHub: "@ + match connectivity {
            Ok(_) => "OK"@,
            Err(e) => e@,
        } + "\n"@ + in_language(language, "Versão instalada"@, "Installed version"@) + ": "@
            + match current {
            Some(c) => c@,
            None => in_language(language, "nenhuma"@, "none"@),
        } + "\nLock: "@ + if locked {
            in_language(language, "presente"@, "present"@)
        } else {
            in_language(language, "livre"@, "free"@)
        },
{
    let mut s = String::from_str(tr(language, "Diagnóstico", "Doctor"));
    s.append("\n");
    s.append(tr(language, "Configuração", "Settings"));
    s.append(": ");
    match &settings {
        Ok(_) => s.append("OK"),
        Err(e) => s.append(e.as_str()),
    }
    s.append("\nGitHub: ");
    match &connectivity {
        Ok(_) => s.append("OK"),
        Err(e) => s.append(e.as_str()),
    }
    s.append("\n");
    s.append(tr(language, "Versão instalada", "Installed version"));
    s.append(": ");
    match &current {
        Some(c) => s.append(c.as_str()),
        None => s.append(tr(language, "nenhuma", "none")),
    }
    s.append("\nLock: ");
    s.append(if locked {
        tr(language, "presente", "present")
    } else {
        tr(language, "livre", "free")
    });
    s
}

} // verus!
