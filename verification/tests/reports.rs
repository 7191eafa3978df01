use distronomicon::reports::{doctor_report, notification_text, rollback_message, rollback_target};
use distronomicon::config::{is_repo_form, token, tr, validate, Action, Config, Language};
use distronomicon::plan::{dry_run, release_notes, UpdatePlan};
use distronomicon::release::{
    bearer, channel_for, latest_url, list_url, pinned_not_found, plan_fetch, tag_url, Asset,
    FetchRequest, FetchResult, Release, Validators,
};
use distronomicon::reports::{check, check_fetched, history, rollback, unlock, version};
use distronomicon::state::State;
use distronomicon::update::{
    cancelled_message, completion_message, download_name, health_check_failed, installed_state,
    precheck, rollback_after_failure, rolled_back_state, safe_name, set_phase,
};

fn config(language: Language) -> Config {
    Config {
        language,
        app_name: "tool".to_string(),
        repo: "owner/tool".to_string(),
        asset_pattern: "(?i).*\\.zip$".to_string(),
        checksum_pattern: "SHA256SUMS".to_string(),
        install_root: "root".to_string(),
        state_root: "state".to_string(),
        github_host: "https://api.github.com".to_string(),
        github_token: String::new(),
        allow_prerelease: false,
        skip_verification: false,
        retain: 3,
        restart_command: String::new(),
        health_check_command: String::new(),
        pinned_version: String::new(),
        channel: "stable".to_string(),
        architecture: "auto".to_string(),
        backup_paths: String::new(),
        verify_authenticode: true,
        max_disk_mb: 0,
        retention_days: 0,
        allow_downgrade: false,
        notifications: true,
    }
}

fn asset(name: &str) -> Asset {
    Asset { name: name.to_string(), url: format!("https://example.invalid/{name}"), size: 10 }
}

fn release(tag: &str, body: &str) -> Release {
    Release {
        tag_name: tag.to_string(),
        html_url: format!("https://example.invalid/{tag}"),
        assets: vec![asset("tool.zip"), asset("SHA256SUMS")],
        draft: false,
        prerelease: false,
        body: body.to_string(),
        created_at: None,
        published_at: None,
    }
}

fn plan(current: Option<&str>, tag: &str) -> UpdatePlan {
    UpdatePlan {
        current: current.map(str::to_string),
        release: release(tag, ""),
        asset: asset("tool.zip"),
        checksum: Some(asset("SHA256SUMS")),
        validators: Validators::empty(),
    }
}

fn state(tag: &str) -> State {
    State { latest_tag: tag.to_string(), etag: "e".to_string(), last_modified: "m".to_string(), installed_at_unix: 1 }
}

#[test]
fn validation_messages() {
    assert_eq!(validate(&config(Language::En), Action::Update), Ok(()));
    let mut c = config(Language::En);
    c.app_name = "../x".to_string();
    assert_eq!(
        validate(&c, Action::Version),
        Err("Invalid application name. Do not use /, \\, .., or null characters.".to_string())
    );
    let mut c = config(Language::PtBr);
    c.repo = "owner".to_string();
    assert_eq!(validate(&c, Action::Check), Err("Use o repositório no formato owner/repository.".to_string()));
    assert_eq!(validate(&c, Action::History), Ok(()));
    let mut c = config(Language::En);
    c.github_host = String::new();
    assert_eq!(validate(&c, Action::Update), Err("Enter the GitHub API host.".to_string()));
    let mut c = config(Language::En);
    c.checksum_pattern = String::new();
    assert_eq!(
        validate(&c, Action::Update),
        Err("Enter a checksum pattern or enable 'Skip verification'.".to_string())
    );
    assert_eq!(validate(&c, Action::Check), Ok(()));
    c.skip_verification = true;
    assert_eq!(validate(&c, Action::Update), Ok(()));
}

#[test]
fn repository_form() {
    assert!(is_repo_form("owner/repo"));
    assert!(!is_repo_form("owner"));
    assert!(!is_repo_form("/repo"));
    assert!(!is_repo_form("owner/"));
    assert!(!is_repo_form("a/b/c"));
}

#[test]
fn tokens_and_headers() {
    let mut c = config(Language::En);
    assert_eq!(token(&c), None);
    c.github_token = "  abc \n".to_string();
    assert_eq!(token(&c), Some("abc".to_string()));
    assert_eq!(bearer(Some(" abc ")), Some("Bearer abc".to_string()));
    assert_eq!(bearer(Some("  ")), None);
    assert_eq!(bearer(None), None);
    assert_eq!(tr(Language::PtBr, "sim", "yes"), "sim");
    assert_eq!(tr(Language::En, "sim", "yes"), "yes");
    assert_eq!(Language::PtBr.label(), "PT-BR");
}

#[test]
fn release_urls() {
    assert_eq!(
        latest_url("https://api.github.com//", "o/r"),
        "https://api.github.com/repos/o/r/releases/latest"
    );
    assert_eq!(
        tag_url("https://ghe.local/api/v3", "o/r", "release/1.0"),
        "https://ghe.local/api/v3/repos/o/r/releases/tags/release%2F1.0"
    );
    assert_eq!(list_url("https://api.github.com", "o/r"), "https://api.github.com/repos/o/r/releases?per_page=100");
}

#[test]
fn fetch_plans() {
    assert!(matches!(plan_fetch("stable", ""), Ok(FetchRequest::Latest)));
    assert!(matches!(plan_fetch("beta", " "), Ok(FetchRequest::List(Some(true)))));
    assert!(matches!(plan_fetch("nightly", ""), Ok(FetchRequest::List(None))));
    match plan_fetch("weekly", "") {
        Err(e) => assert_eq!(e, "Unknown release channel: weekly"),
        Ok(_) => panic!("unknown channel accepted"),
    }
    match plan_fetch("weekly", " 1.2.0 ") {
        Ok(FetchRequest::Tag { tag, fallback }) => {
            assert_eq!(tag, "1.2.0");
            assert_eq!(fallback, Some("v1.2.0".to_string()));
        }
        _ => panic!("a pin fetches its tag"),
    }
    match plan_fetch("stable", "v2") {
        Ok(FetchRequest::Tag { tag, fallback }) => {
            assert_eq!(tag, "v2");
            assert_eq!(fallback, None);
        }
        _ => panic!("a pin fetches its tag"),
    }
    assert_eq!(channel_for(true), "nightly");
    assert_eq!(channel_for(false), "stable");
    assert_eq!(
        pinned_not_found("1.0", "v1.0", "404", "404"),
        "Could not find pinned release '1.0' or 'v1.0': 404; 404"
    );
}

#[test]
fn check_reports() {
    let up = check(Language::En, &plan(Some("v1"), "v1"));
    assert!(!up.notify);
    assert_eq!(up.message, "Up to date: v1");
    let avail = check(Language::En, &plan(Some("v1"), "v2"));
    assert!(avail.notify);
    assert_eq!(avail.message, "Update available: v1 → v2\nhttps://example.invalid/v2");
    let fresh = check(Language::PtBr, &plan(None, "v2"));
    assert_eq!(fresh.message, "Instalação disponível: v2\nhttps://example.invalid/v2");
}

#[test]
fn check_with_cached_answer() {
    let cached = FetchResult { release: None, validators: Validators::empty(), not_modified: true };
    assert_eq!(check_fetched(Language::En, Some("v1".to_string()), &cached), Ok("Up to date: v1".to_string()));
    assert_eq!(check_fetched(Language::En, None, &cached), Ok("No version installed.".to_string()));
    let empty = FetchResult { release: None, validators: Validators::empty(), not_modified: false };
    assert_eq!(check_fetched(Language::En, None, &empty), Err("No release available.".to_string()));
}

#[test]
fn version_unlock_history_rollback() {
    assert_eq!(version(Language::En, Ok(Some("v3".to_string())), None), Ok("Installed version: v3".to_string()));
    assert_eq!(version(Language::En, Ok(None), Some(state("v2"))), Ok("Installed version: v2".to_string()));
    assert_eq!(version(Language::PtBr, Ok(None), None), Ok("Nenhuma versão instalada.".to_string()));
    assert_eq!(version(Language::En, Err("io".to_string()), None), Err("io".to_string()));
    assert_eq!(unlock(Language::En, Ok(())), Ok("Lock removed.".to_string()));
    assert_eq!(unlock(Language::En, Err("denied".to_string())), Err("denied".to_string()));
    assert_eq!(history(Language::En, "  "), "Recent history\nNo history entries.");
    assert_eq!(history(Language::En, "1 | update\n"), "Recent history\n1 | update\n");
    let e = rollback("v2", "v1", true, 9);
    assert_eq!(e.action, "rollback");
    assert_eq!(e.from_version, "v2");
    assert_eq!(e.to_version, "v1");
    assert_eq!(e.result, "success");
    assert_eq!(rollback("v2", "v1", false, 9).result, "failed");
}

#[test]
fn notes_and_dry_run() {
    let mut p = plan(Some("v1"), "v2");
    p.release.body = "  fixes \n".to_string();
    assert_eq!(release_notes(Language::En, &p), "v2 — https://example.invalid/v2\n\nfixes");
    p.release.body = String::new();
    assert_eq!(release_notes(Language::En, &p), "v2 — https://example.invalid/v2\n\nNo release notes.");
    let text = dry_run(&config(Language::En), &plan(Some("v1"), "v2"), "x86_64", "30 B", &["v0".to_string()]);
    assert_eq!(
        text,
        "DRY RUN — no changes were made.\nCurrent version: v1\nTarget version: v2\nChannel: stable\n\
Architecture: x64\nPinned version: latest\nSelected asset: tool.zip\nEstimated required size: 30 B\n\
Checksum: SHA256SUMS\nPossible downgrade: no\nReleases that count retention will remove: v0\n\
The update will only happen when you click Update."
    );
}

#[test]
fn update_decisions() {
    let c = config(Language::En);
    assert_eq!(precheck(&c, &plan(Some("v1"), "v1")), Some(Ok("Already up to date: v1".to_string())));
    assert_eq!(
        precheck(&c, &plan(Some("v2.0"), "v1.9")),
        Some(Err("Downgrade blocked. Enable explicit authorization in the profile to continue: v2.0 → v1.9".to_string()))
    );
    let mut allowed = config(Language::En);
    allowed.allow_downgrade = true;
    assert_eq!(precheck(&allowed, &plan(Some("v2.0"), "v1.9")), None);
    assert_eq!(precheck(&c, &plan(Some("v1"), "v2")), None);
    assert_eq!(precheck(&c, &plan(None, "v2")), None);
}

#[test]
fn update_texts() {
    assert_eq!(safe_name("a/b\\c:d*e?f\"g<h>i|j"), "a_b_c_d_e_f_g_h_i_j");
    assert_eq!(download_name("release/1", "tool.zip"), "release_1-tool.zip");
    let mut status = String::new();
    set_phase(&mut status, Language::En, "Baixando...", "Downloading...");
    assert_eq!(status, "Downloading...");
    assert_eq!(
        cancelled_message(Language::En),
        "Download cancelled. The current installation was left intact."
    );
    assert!(rollback_after_failure("v1"));
    assert!(!rollback_after_failure(""));
    let h = health_check_failed(Language::En, "v1", "exit 1");
    assert_eq!(h.history_result, "health-check-failed; automatic-rollback-attempted");
    assert_eq!(h.message, "Health check failed: exit 1. Previous version: v1");
    let none = health_check_failed(Language::En, "", "exit 1");
    assert_eq!(none.history_result, "health-check-failed; no-previous-release");
    assert_eq!(none.message, "Health check failed: exit 1. Previous version: -");
    let m = completion_message(
        Language::En,
        "v2",
        "root/tool/releases/v2",
        "ab12",
        "30 B",
        Some("state/tool/backups/5"),
        true,
        &["v0".to_string(), "v-1".to_string()],
    );
    assert_eq!(
        m,
        "Update completed: v2\nInstalled at: root/tool/releases/v2\nSHA-256: ab12\n\
Estimated space used in planning: 30 B\nBackup: state/tool/backups/5\n\
Download resumed from a partial transfer.\nReleases removed by retention policy: v0, v-1"
    );
}

#[test]
fn states_after_install_and_rollback() {
    let v = Validators { etag: "n".to_string(), last_modified: String::new() };
    let s = installed_state(Some(state("v1")), "v2", &v, 50);
    assert_eq!(s.latest_tag, "v2");
    assert_eq!(s.etag, "n");
    assert_eq!(s.last_modified, "m");
    assert_eq!(s.installed_at_unix, 50);
    let r = rolled_back_state(Some(state("v2")), "v1", 60);
    assert_eq!(r.latest_tag, "v1");
    assert_eq!(r.etag, "e");
    assert_eq!(r.installed_at_unix, 60);
}

#[test]
fn rollback_targets() {
    let list: Vec<String> = ["v3", "v2", "v1"].iter().map(|s| s.to_string()).collect();
    assert_eq!(rollback_target(Language::En, &list, "v3"), Ok("v2".to_string()));
    assert_eq!(rollback_target(Language::En, &list, "v2"), Ok("v1".to_string()));
    assert_eq!(
        rollback_target(Language::En, &list, "v1"),
        Err("No previous release available to roll back to.".to_string())
    );
    assert_eq!(
        rollback_target(Language::PtBr, &list, "v9"),
        Err("Nenhuma versão anterior disponível para reverter.".to_string())
    );
    assert_eq!(rollback_message(Language::En, "v2"), "Release restored: v2");
}

#[test]
fn doctor_and_notification_texts() {
    assert_eq!(
        doctor_report(Language::En, Ok(()), Err("offline".to_string()), Some("v1".to_string()), false),
        "Doctor\nSettings: OK\nGitHub: offline\nInstalled version: v1\nLock: free"
    );
    assert_eq!(
        doctor_report(Language::PtBr, Err("x".to_string()), Ok(()), None, true),
        "Diagnóstico\nConfiguração: x\nGitHub: OK\nVersão instalada: nenhuma\nLock: presente"
    );
    assert_eq!(notification_text("Update available: v1 → v2\nhttps://x"), "Update available: v1 → v2 https://x");
}
