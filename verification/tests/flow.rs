use distronomicon::config::{Config, Language};
use distronomicon::features::ExeStatus;
use distronomicon::flow::{Event, Stage, UpdateFlow, Work};
use distronomicon::plan::UpdatePlan;
use distronomicon::release::{Asset, Release, Validators};
use distronomicon::state::State;

fn config(restart: &str, health: &str) -> Config {
    Config {
        language: Language::En,
        app_name: "tool".to_string(),
        repo: "owner/tool".to_string(),
        asset_pattern: ".*".to_string(),
        checksum_pattern: "SHA256SUMS".to_string(),
        install_root: "root".to_string(),
        state_root: "state".to_string(),
        github_host: "https://api.github.com".to_string(),
        github_token: String::new(),
        allow_prerelease: false,
        skip_verification: false,
        retain: 3,
        restart_command: restart.to_string(),
        health_check_command: health.to_string(),
        pinned_version: String::new(),
        channel: "stable".to_string(),
        architecture: "auto".to_string(),
        backup_paths: String::new(),
        verify_authenticode: true,
        max_disk_mb: 0,
        retention_days: 0,
        allow_downgrade: false,
        notifications: true,
    }
}

fn asset(name: &str, size: u64) -> Asset {
    Asset { name: name.to_string(), url: String::new(), size }
}

fn plan(current: Option<&str>, tag: &str, checksum: bool) -> UpdatePlan {
    UpdatePlan {
        current: current.map(str::to_string),
        release: Release {
            tag_name: tag.to_string(),
            html_url: String::new(),
            assets: vec![asset("tool.zip", 100), asset("SHA256SUMS", 1)],
            draft: false,
            prerelease: false,
            body: String::new(),
            created_at: None,
            published_at: None,
        },
        asset: asset("tool.zip", 100),
        checksum: if checksum { Some(asset("SHA256SUMS", 1)) } else { None },
        validators: Validators { etag: "\"e2\"".to_string(), last_modified: String::new() },
    }
}

fn name(w: &Work) -> &'static str {
    match w {
        Work::Plan => "plan",
        Work::CheckSpace(_) => "space",
        Work::Backup => "backup",
        Work::Download(_) => "download",
        Work::VerifyChecksum => "verify",
        Work::Hash => "hash",
        Work::Install => "install",
        Work::CheckSignatures => "signatures",
        Work::Restart => "restart",
        Work::HealthCheck => "health",
        Work::RestorePrevious(_) => "restore",
        Work::RemoveInstalled => "remove-installed",
        Work::LoadState => "load-state",
        Work::SaveState(_) => "save-state",
        Work::Prune => "prune",
        Work::Record(_) => "record",
        Work::RemoveDownload => "remove-download",
        Work::Notify(_) => "notify",
        Work::Finish(_) => "finish",
    }
}

fn to_installed(flow: &mut UpdateFlow, checksum: bool) {
    match flow.step(Event::Planned(plan(Some("v1"), "v2", checksum)), 10) {
        Work::CheckSpace(n) => assert_eq!(n, 300),
        w => panic!("expected a space check, got {}", name(&w)),
    }
    assert!(matches!(flow.step(Event::SpaceAvailable("0.0 MB".to_string()), 10), Work::Backup));
    match flow.step(Event::BackedUp(None), 10) {
        Work::Download(file) => assert_eq!(file, "v2-tool.zip"),
        w => panic!("expected a download, got {}", name(&w)),
    }
    let next = flow.step(Event::Downloaded(false), 10);
    if checksum {
        assert!(matches!(next, Work::VerifyChecksum));
        assert!(matches!(flow.step(Event::Done, 10), Work::Hash));
    } else {
        assert!(matches!(next, Work::Hash));
    }
    assert!(matches!(flow.step(Event::Hashed("abcd".to_string()), 10), Work::Install));
    assert!(matches!(flow.step(Event::Installed("root/tool/releases/v2".to_string()), 10), Work::CheckSignatures));
}

#[test]
fn successful_update_runs_every_step() {
    let mut flow = UpdateFlow::new(&config("restart.cmd", "health.cmd"));
    to_installed(&mut flow, true);
    let signed = vec![ExeStatus { path: "a.exe".to_string(), status: Ok("Valid".to_string()) }];
    assert!(matches!(flow.step(Event::Signatures(signed), 10), Work::Restart));
    assert!(matches!(flow.step(Event::Done, 10), Work::HealthCheck));
    assert!(matches!(flow.step(Event::Done, 10), Work::LoadState));
    let old = State { latest_tag: "v1".to_string(), etag: "\"e1\"".to_string(), last_modified: "Mon".to_string(), installed_at_unix: 1 };
    match flow.step(Event::StateLoaded(Some(old)), 42) {
        Work::SaveState(s) => {
            assert_eq!(s.latest_tag, "v2");
            assert_eq!(s.etag, "\"e2\"");
            assert_eq!(s.last_modified, "Mon");
            assert_eq!(s.installed_at_unix, 42);
        }
        w => panic!("expected the state, got {}", name(&w)),
    }
    assert!(matches!(flow.step(Event::Done, 42), Work::Prune));
    match flow.step(Event::Pruned(vec!["v0".to_string()]), 43) {
        Work::Record(e) => {
            assert_eq!((e.action.as_str(), e.from_version.as_str(), e.to_version.as_str()), ("update", "v1", "v2"));
            assert_eq!((e.asset.as_str(), e.sha256.as_str(), e.result.as_str()), ("tool.zip", "abcd", "success"));
            assert_eq!(e.timestamp_unix, 43);
        }
        w => panic!("expected a history entry, got {}", name(&w)),
    }
    assert!(matches!(flow.step(Event::Failed("history is read-only".to_string()), 43), Work::RemoveDownload));
    match flow.step(Event::Done, 43) {
        Work::Notify(text) => assert_eq!(text, "Update completed v2"),
        w => panic!("expected a notification, got {}", name(&w)),
    }
    match flow.step(Event::Done, 43) {
        Work::Finish(Ok(m)) => assert_eq!(
            m,
            "Update completed: v2\nInstalled at: root/tool/releases/v2\nSHA-256: abcd\n\
Estimated space used in planning: 0.0 MB\nReleases removed by retention policy: v0"
        ),
        w => panic!("expected the end, got {}", name(&w)),
    }
    assert!(flow.stage == Stage::Finished);
}

#[test]
fn update_stops_early() {
    let mut flow = UpdateFlow::new(&config("", ""));
    match flow.step(Event::Planned(plan(Some("v2"), "v2", true)), 0) {
        Work::Finish(Ok(m)) => assert_eq!(m, "Already up to date: v2"),
        w => panic!("unexpected {}", name(&w)),
    }
    let mut flow = UpdateFlow::new(&config("", ""));
    match flow.step(Event::Planned(plan(Some("v3.0"), "v2.0", true)), 0) {
        Work::Finish(Err(e)) => assert_eq!(
            e,
            "Downgrade blocked. Enable explicit authorization in the profile to continue: v3.0 → v2.0"
        ),
        w => panic!("unexpected {}", name(&w)),
    }
    let mut flow = UpdateFlow::new(&config("", ""));
    match flow.step(Event::Failed("offline".to_string()), 0) {
        Work::Finish(Err(e)) => assert_eq!(e, "offline"),
        w => panic!("unexpected {}", name(&w)),
    }
}

#[test]
fn cancelled_download_leaves_installation() {
    let mut flow = UpdateFlow::new(&config("", ""));
    assert!(matches!(flow.step(Event::Planned(plan(None, "v1", false)), 0), Work::CheckSpace(_)));
    assert!(matches!(flow.step(Event::SpaceAvailable("1 MB".to_string()), 0), Work::Backup));
    assert!(matches!(flow.step(Event::BackedUp(None), 0), Work::Download(_)));
    match flow.step(Event::Cancelled, 0) {
        Work::Finish(Err(e)) => assert_eq!(e, "Download cancelled. The current installation was left intact."),
        w => panic!("unexpected {}", name(&w)),
    }
}

#[test]
fn bad_signature_restores_previous_release() {
    let mut flow = UpdateFlow::new(&config("", ""));
    to_installed(&mut flow, false);
    let bad = vec![ExeStatus { path: "a.exe".to_string(), status: Ok("HashMismatch".to_string()) }];
    match flow.step(Event::Signatures(bad), 0) {
        Work::RestorePrevious(t) => assert_eq!(t, "v1"),
        w => panic!("unexpected {}", name(&w)),
    }
    assert!(matches!(flow.step(Event::Done, 0), Work::RemoveInstalled));
    match flow.step(Event::Done, 0) {
        Work::Finish(Err(e)) => assert_eq!(e, "Authenticode validation failed for a.exe: HashMismatch"),
        w => panic!("unexpected {}", name(&w)),
    }
}

#[test]
fn failed_health_check_rolls_back_and_records() {
    let mut flow = UpdateFlow::new(&config("", "health.cmd"));
    to_installed(&mut flow, true);
    assert!(matches!(flow.step(Event::Signatures(Vec::new()), 0), Work::HealthCheck));
    match flow.step(Event::Failed("exit 3".to_string()), 0) {
        Work::RestorePrevious(t) => assert_eq!(t, "v1"),
        w => panic!("unexpected {}", name(&w)),
    }
    match flow.step(Event::Done, 7) {
        Work::Record(e) => {
            assert_eq!(e.result, "health-check-failed; automatic-rollback-attempted");
            assert_eq!(e.timestamp_unix, 7);
        }
        w => panic!("unexpected {}", name(&w)),
    }
    match flow.step(Event::Done, 7) {
        Work::Finish(Err(e)) => assert_eq!(e, "Health check failed: exit 3. Previous version: v1"),
        w => panic!("unexpected {}", name(&w)),
    }
}
