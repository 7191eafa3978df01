//! The decisions of an update run: when it stops early, what it writes, and what it reports.
use vstd::prelude::*;
use crate::config::{in_language, tr, Config, Language};
use crate::plan::UpdatePlan;
use crate::release::Validators;
use crate::state::State;
use crate::text::{chars_of, join_strings, join_with, views};
use crate::versions::{lemma_lex_order_basics, lex_order, version_key_of, version_order};
use vstd::string::StringExecFns;

verus! {

/// Characters that cannot stand in a Windows file name.
pub open spec fn unsafe_in_file_name(c: char) -> bool {
    c == '/' || c == '\\' || c == ':' || c == '*' || c == '?' || c == '"' || c == '<' || c == '>'
        || c == '|'
}

pub open spec fn safe_char(c: char) -> char {
    if unsafe_in_file_name(c) {
        '_'
    } else {
        c
    }
}

/// The text with every character that a file name cannot hold replaced by `_`.
pub open spec fn safe_name_of(s: Seq<char>) -> Seq<char> {
    s.map_values(|c: char| safe_char(c))
}

/// Makes a text usable as part of a file name.
pub fn safe_name(value: &str) -> (r: String)
    ensures
        r@ == safe_name_of(value@),
{
    let v = chars_of(value);
    let mut out = String::new();
    let mut i: usize = 0;
    while i < v.len()
        invariant
            i <= v@.len(),
            out@ == safe_name_of(v@.take(i as int)),
        decreases v.len() - i,
    {
        let c = v[i];
        let d = if c == '/' || c == '\\' || c == ':' || c == '*' || c == '?' || c == '"' || c == '<'
            || c == '>' || c == '|' {
            '_'
        } else {
            c
        };
        out.push(d);
        proof {
            assert(safe_name_of(v@.take(i + 1)) == safe_name_of(v@.take(i as int)).push(d));
        }
        i = i + 1;
    }
    assert(v@.take(i as int) == v@);
    out
}

/// The name of the download file: `<tag>-<asset>`, both made safe for a file name.
pub fn download_name(tag: &str, asset: &str) -> (r: String)
    ensures
        r@ == safe_name_of(tag@) + "-"@ + safe_name_of(asset@),
{
    let mut r = safe_name(tag);
    r.append("-");
    let a = safe_name(asset);
    r.append(a.as_str());
    r
}

/// Shows the current phase of a run in the given language.
pub fn set_phase(status: &mut String, language: Language, pt: &'static str, en: &'static str)
    ensures
        final(status)@ == in_language(language, pt@, en@),
{
    *status = String::from_str(tr(language, pt, en));
}

/// Where an update stops before downloading anything, in `language`: the target is already
/// active (a success message), or it is older than the active release and downgrades are not
/// allowed (an error message).
pub open spec fn early_stop(language: Language, allow_downgrade: bool, plan: UpdatePlan) -> Option<
    Result<Seq<char>, Seq<char>>,
> {
    match plan.current {
        Some(c) => if c@ == plan.release.tag_name@ {
            Some(
                Ok(
                    in_language(language, "Já está atualizado"@, "Already up to date"@) + ": "@
                        + plan.release.tag_name@,
                ),
            )
        } else if !allow_downgrade && c@.len() > 0 && version_order(plan.release.tag_name@, c@) < 0 {
            Some(
                Err(
                    in_language(
                        language,
                        "Downgrade bloqueado. Habilite a autorização explícita no perfil para continuar"@,
                        "Downgrade blocked. Enable explicit authorization in the profile to continue"@,
                    ) + ": "@ + c@ + " → "@ + plan.release.tag_name@,
                ),
            )
        } else {
            None
        },
        None => None,
    }
}

/// How the early stop treats versions: an update stops as up to date exactly when the target
/// tag is the active one; it is blocked only when downgrades are not allowed and the target is
/// older than the active release in the version order, so a target whose numeric key is
/// greater (`v10.0` over `v9.0`) is never blocked, and one whose numeric key is smaller always
/// is while downgrades are not allowed. With no active release nothing stops.
pub proof fn lemma_early_stop_versions(language: Language, allow_downgrade: bool, plan: UpdatePlan)
    ensures
        early_stop(language, allow_downgrade, plan) matches Some(Ok(_)) <==> (plan.current matches Some(
            c,
        ) && c@ == plan.release.tag_name@),
        early_stop(language, allow_downgrade, plan) matches Some(Err(_)) ==> !allow_downgrade && (
        plan.current matches Some(c) && c@ != plan.release.tag_name@ && version_order(
            plan.release.tag_name@,
            c@,
        ) < 0),
        plan.current matches Some(c) && lex_order(
            version_key_of(plan.release.tag_name@),
            version_key_of(c@),
        ) > 0 ==> early_stop(language, allow_downgrade, plan) is None,
        plan.current matches Some(c) && !allow_downgrade && c@.len() > 0 && lex_order(
            version_key_of(plan.release.tag_name@),
            version_key_of(c@),
        ) < 0 ==> early_stop(language, allow_downgrade, plan) matches Some(Err(_)),
        plan.current is None ==> early_stop(language, allow_downgrade, plan) is None,
{
    if let Some(c) = plan.current {
        lemma_lex_order_basics(version_key_of(plan.release.tag_name@), version_key_of(c@));
        if c@ == plan.release.tag_name@ {
            assert(version_key_of(plan.release.tag_name@) == version_key_of(c@));
        }
    }
}

/// The views of an optional outcome.
pub open spec fn outcome_views(r: Option<Result<String, String>>) -> Option<Result<Seq<char>, Seq<char>>> {
    match r {
        Some(Ok(m)) => Some(Ok(m@)),
        Some(Err(e)) => Some(Err(e@)),
        None => None,
    }
}

/// Where an update stops before downloading anything (see [`early_stop`]).
pub fn stop_before_download(language: Language, allow_downgrade: bool, plan: &UpdatePlan) -> (r: Option<
    Result<String, String>,
>)
    ensures
        outcome_views(r) == early_stop(language, allow_downgrade, *plan),
{
    let l = language;
    match &plan.current {
        None => None,
        Some(c) => {
            if crate::text::same_text(c.as_str(), plan.release.tag_name.as_str()) {
                let mut m = String::from_str(tr(l, "Já está atualizado", "Already up to date"));
                m.append(": ");
                m.append(plan.release.tag_name.as_str());
                Some(Ok(m))
            } else if !allow_downgrade && c.as_str().unicode_len() > 0
                && crate::versions::is_downgrade(c.as_str(), plan.release.tag_name.as_str()) {
                let mut e = String::from_str(tr(l,
                    "Downgrade bloqueado. Habilite a autorização explícita no perfil para continuar",
                    "Downgrade blocked. Enable explicit authorization in the profile to continue"));
                e.append(": ");
                e.append(c.as_str());
                e.append(" → ");
                e.append(plan.release.tag_name.as_str());
                Some(Err(e))
            } else {
                None
            }
        },
    }
}

/// Where an update with the settings `config` stops before downloading anything.
pub fn precheck(config: &Config, plan: &UpdatePlan) -> (r: Option<Result<String, String>>)
    ensures
        outcome_views(r) == early_stop(config.language, config.allow_downgrade, *plan),
{
    stop_before_download(config.language, config.allow_downgrade, plan)
}

/// The error of a cancelled download, which leaves the installation untouched.
pub fn cancelled_message(language: Language) -> (r: String)
    ensures
        r@ == in_language(
            language,
            "Download cancelado. A instalação atual permaneceu intacta."@,
            "Download cancelled. The current installation was left intact."@,
        ),
{
    String::from_str(tr(language, "Download cancelado. A instalação atual permaneceu intacta.",
        "Download cancelled. The current installation was left intact."))
}

/// The state saved after installing `tag` at time `now`, keeping the old validators where
/// the lookup gave none.
pub fn installed_state(existing: Option<State>, tag: &str, validators: &Validators, now: u64) -> (s:
    State)
    ensures
        s.latest_tag@ == tag@,
        s.etag@ == (if validators.etag@.len() > 0 {
            validators.etag@
        } else {
            match existing {
                Some(e) => e.etag@,
                None => Seq::<char>::empty(),
            }
        }),
        s.last_modified@ == (if validators.last_modified@.len() > 0 {
            validators.last_modified@
        } else {
            match existing {
                Some(e) => e.last_modified@,
                None => Seq::<char>::empty(),
            }
        }),
        s.installed_at_unix == now,
{
    let mut value = match existing {
        Some(e) => e,
        None => State::default(),
    };
    value.latest_tag = String::from_str(tag);
    if validators.etag.as_str().unicode_len() > 0 {
        value.etag = validators.etag.clone();
    }
    if validators.last_modified.as_str().unicode_len() > 0 {
        value.last_modified = validators.last_modified.clone();
    }
    value.installed_at_unix = now;
    value
}

/// The state saved after rolling back to `old` at time `now`; the validators are kept.
pub fn rolled_back_state(existing: Option<State>, old: &str, now: u64) -> (s: State)
    ensures
        s.latest_tag@ == old@,
        s.installed_at_unix == now,
        existing matches Some(e) ==> s.etag == e.etag && s.last_modified == e.last_modified,
        existing is None ==> s.etag@.len() == 0 && s.last_modified@.len() == 0,
{
    let mut value = match existing {
        Some(e) => e,
        None => State::default(),
    };
    value.latest_tag = String::from_str(old);
    value.installed_at_unix = now;
    value
}

/// Whether a failed post-install step rolls back: only when a previous release was active.
pub fn rollback_after_failure(old: &str) -> (r: bool)
    ensures
        r == (old@.len() > 0),
{
    old.unicode_len() > 0
}

/// What a failed health check records in the history, and the error it reports.
pub struct HealthFailure {
    pub history_result: String,
    pub message: String,
}

/// The outcome of a failed health check after installing `tag` over `old`.
pub fn health_check_failed(language: Language, old: &str, error: &str) -> (r: HealthFailure)
    ensures
        r.history_result@ == (if old@.len() > 0 {
            "health-check-failed; automatic-rollback-attempted"@
        } else {
            "health-check-failed; no-previous-release"@
        }),
        r.message@ == in_language(language, "A verificação de saúde falhou"@, "Health check failed"@)
            + ": "@ + error@ + ". "@ + in_language(language, "Versão anterior"@, "Previous version"@)
            + ": "@ + (if old@.len() > 0 {
            old@
        } else {
            "-"@
        }),
{
    let has_old = old.unicode_len() > 0;
    let result = if has_old {
        "health-check-failed; automatic-rollback-attempted"
    } else {
        "health-check-failed; no-previous-release"
    };
    let mut m = String::from_str(tr(language, "A verificação de saúde falhou", "Health check failed"));
    m.append(": ");
    m.append(error);
    m.append(". ");
    m.append(tr(language, "Versão anterior", "Previous version"));
    m.append(": ");
    m.append(if has_old {
        old
    } else {
        "-"
    });
    HealthFailure { history_result: String::from_str(result), message: m }
}

/// The first lines of the report of a completed update.
pub open spec fn completion_head(
    language: Language,
    tag: Seq<char>,
    installed: Seq<char>,
    sha256: Seq<char>,
    size_text: Seq<char>,
) -> Seq<char> {
    in_language(language, "Atualização concluída"@, "Update completed"@) + ": "@ + tag + "\n"@
        + in_language(language, "Instalada em"@, "Installed at"@) + ": "@ + installed
        + "\nSHA-256: "@ + sha256 + "\n"@ + in_language(
        language,
        "Espaço estimado usado no planejamento"@,
        "Estimated space used in planning"@,
    ) + ": "@ + size_text
}

pub open spec fn backup_line(language: Language, backup: Option<Seq<char>>) -> Seq<char> {
    match backup {
        Some(b) => "\n"@ + in_language(language, "Backup"@, "Backup"@) + ": "@ + b,
        None => Seq::<char>::empty(),
    }
}

pub open spec fn resumed_line(language: Language, resumed: bool) -> Seq<char> {
    if resumed {
        "\n"@ + in_language(
            language,
            "Download retomado de uma transferência parcial."@,
            "Download resumed from a partial transfer."@,
        )
    } else {
        Seq::<char>::empty()
    }
}

pub open spec fn removed_line(language: Language, deleted: Seq<Seq<char>>) -> Seq<char> {
    if deleted.len() > 0 {
        "\n"@ + in_language(
            language,
            "Versões removidas pela política de retenção"@,
            "Releases removed by retention policy"@,
        ) + ": "@ + join_with(deleted, ", "@)
    } else {
        Seq::<char>::empty()
    }
}

fn head_of(language: Language, tag: &str, installed: &str, sha256: &str, size_text: &str) -> (r:
    String)
    ensures
        r@ == completion_head(language, tag@, installed@, sha256@, size_text@),
{
    let mut m = String::from_str(tr(language, "Atualização concluída", "Update completed"));
    m.append(": ");
    m.append(tag);
    m.append("\n");
    m.append(tr(language, "Instalada em", "Installed at"));
    m.append(": ");
    m.append(installed);
    m.append("\nSHA-256: ");
    m.append(sha256);
    m.append("\n");
    m.append(tr(language, "Espaço estimado usado no planejamento", "Estimated space used in planning"));
    m.append(": ");
    m.append(size_text);
    m
}

fn backup_of(language: Language, backup: Option<&str>) -> (r: String)
    ensures
        r@ == backup_line(language, match backup {
            Some(b) => Some(b@),
            None => None,
        }),
{
    let mut m = String::new();
    match backup {
        Some(b) => {
            m.append("\n");
            m.append(tr(language, "Backup", "Backup"));
            m.append(": ");
            m.append(b);
        },
        None => {},
    }
    m
}

fn resumed_of(language: Language, resumed: bool) -> (r: String)
    ensures
        r@ == resumed_line(language, resumed),
{
    let mut m = String::new();
    if resumed {
        m.append("\n");
        m.append(tr(language, "Download retomado de uma transferência parcial.",
            "Download resumed from a partial transfer."));
    }
    m
}

fn removed_of(language: Language, deleted: &[String]) -> (r: String)
    ensures
        r@ == removed_line(language, views(deleted@)),
{
    let mut m = String::new();
    if deleted.len() > 0 {
        m.append("\n");
        m.append(tr(language, "Versões removidas pela política de retenção",
            "Releases removed by retention policy"));
        m.append(": ");
        let j = join_strings(deleted, ", ");
        m.append(j.as_str());
    }
    m
}

/// Reports a completed update: version, folder, SHA-256, estimated space, and where present the
/// backup folder, the resumed download and the releases removed by retention.
pub fn completion_message(
    language: Language,
    tag: &str,
    installed: &str,
    sha256: &str,
    size_text: &str,
    backup: Option<&str>,
    resumed: bool,
    deleted: &[String],
) -> (r: String)
    ensures
        r@ == completion_head(language, tag@, installed@, sha256@, size_text@) + backup_line(
            language,
            match backup {
                Some(b) => Some(b@),
                None => None,
            },
        ) + resumed_line(language, resumed) + removed_line(language, views(deleted@)),
{
    let mut m = head_of(language, tag, installed, sha256, size_text);
    let b = backup_of(language, backup);
    m.append(b.as_str());
    let r = resumed_of(language, resumed);
    m.append(r.as_str());
    let d = removed_of(language, deleted);
    m.append(d.as_str());
    m
}

} // verus!
