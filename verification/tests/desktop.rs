use distronomicon::config::Action;
use distronomicon::desktop::outcome_text;
use distronomicon::config::Language;
use distronomicon::desktop::{normalize_app_name, normalize_repo, DesktopApp};
use distronomicon::profiles::Profile;
use distronomicon::release::{Asset, FetchResult, Release, Validators};
use distronomicon::schedule::{
    arg_value, exit_code, find_profile, install_args, log_file_name, log_text, maybe_run,
    runs_update, task_name, uninstall_args,
};
use distronomicon::self_update::{apply_script, compare_versions, run, SelfUpdate};

fn named(name: &str) -> Profile {
    Profile { name: name.to_string(), ..Profile::default() }
}

fn names(app: &DesktopApp) -> Vec<String> {
    app.profiles.iter().map(|p| p.name.clone()).collect()
}

#[test]
fn repositories_from_addresses() {
    assert_eq!(normalize_repo("owner/repo"), Ok("owner/repo".to_string()));
    assert_eq!(normalize_repo(" https://GitHub.com/owner/repo.git/ "), Ok("owner/repo".to_string()));
    assert_eq!(normalize_repo("github.com/owner/repo"), Ok("owner/repo".to_string()));
    assert_eq!(normalize_repo("http://github.com/owner/repo/"), Ok("owner/repo".to_string()));
    assert_eq!(normalize_repo("owner"), Err("Invalid GitHub repository: owner".to_string()));
}

#[test]
fn application_names() {
    assert_eq!(normalize_app_name(" tool ", "owner/repo"), "tool");
    assert_eq!(normalize_app_name("", "owner/repo"), "repo");
    assert_eq!(normalize_app_name("https://github.com/owner/other", "owner/repo"), "other");
    assert_eq!(normalize_app_name("", "bad"), "");
}

#[test]
fn fresh_window_defaults() {
    let app = DesktopApp::new("C:\\Apps\\Distronomicon", Vec::new());
    assert_eq!(app.install_root, "C:\\Apps\\Distronomicon\\managed");
    assert_eq!(app.state_root, "C:\\Apps\\Distronomicon\\.distronomicon");
    assert_eq!(app.retain, 3);
    assert_eq!(app.channel, "stable");
    assert_eq!(app.status, "Pronto. Configure a aplicação e o repositório.");
    let c = app.config();
    assert_eq!(c.repo, "owner/repository");
    assert_eq!(c.app_name, "meu-app");
    assert!(!c.allow_prerelease);
}

#[test]
fn form_config_normalizes_fields() {
    let mut app = DesktopApp::new("base", Vec::new());
    app.repo = " https://github.com/acme/widget ".to_string();
    app.app_name = "  ".to_string();
    app.channel = "beta".to_string();
    app.install_root = " root ".to_string();
    let c = app.config();
    assert_eq!(c.repo, "acme/widget");
    assert_eq!(c.app_name, "widget");
    assert_eq!(c.install_root, "root");
    assert!(c.allow_prerelease);
}

#[test]
fn saving_and_deleting_profiles() {
    let mut app = DesktopApp::new("base", vec![named("b")]);
    app.language = Language::En;
    assert!(app.save_profile().is_none());
    assert_eq!(app.status, "Enter a profile name.");
    app.profile_name = " a ".to_string();
    let saved = app.save_profile().unwrap();
    assert_eq!(saved.name, "a");
    assert_eq!(names(&app), vec!["a", "b"]);
    app.profile_saved(saved, Ok(()));
    assert_eq!(app.selected_profile, "a");
    assert_eq!(app.status, "Profile saved.");
    app.delete_profile();
    assert_eq!(names(&app), vec!["b"]);
    app.profile_deleted(Err("disk full".to_string()));
    assert_eq!(app.status, "Failed to delete profile: disk full");
    app.profile_deleted(Ok(()));
    assert_eq!(app.selected_profile, "");
    assert_eq!(app.status, "Profile removed.");
}

#[test]
fn applying_a_profile() {
    let mut app = DesktopApp::new("base", Vec::new());
    let mut p = named("p");
    p.install_root = String::new();
    p.allow_prerelease = true;
    p.channel = String::new();
    p.interval_minutes = 0;
    app.apply_profile(&p);
    assert_eq!(app.install_root, "base\\managed");
    assert_eq!(app.channel, "nightly");
    assert_eq!(app.interval_minutes, 1);
    assert_eq!(app.profile_name, "p");
}

#[test]
fn importing_profiles() {
    let mut app = DesktopApp::new("base", vec![named("m")]);
    app.language = Language::En;
    assert!(app.import_profiles(Ok(vec![named("z"), named("a"), named("m")])));
    assert_eq!(names(&app), vec!["a", "m", "z"]);
    assert!(!app.import_profiles(Err("bad json".to_string())));
    assert_eq!(app.status, "Failed to import profiles: bad json");
    app.profiles_imported(Ok(()));
    assert_eq!(app.status, "Profiles imported successfully.");
}

#[test]
fn window_status_messages() {
    let mut app = DesktopApp::new("base", Vec::new());
    app.language = Language::En;
    app.export_profiles(Ok("base/profiles-export.json".to_string()));
    assert_eq!(app.status, "Profiles exported: base/profiles-export.json");
    assert!(!app.schedule());
    assert_eq!(app.status, "Save the profile before scheduling.");
    app.profile_name = "p".to_string();
    assert!(app.schedule());
    app.scheduled(Ok(()));
    assert_eq!(app.status, "Windows automation enabled.");
    app.unschedule(Err("access denied".to_string()));
    assert_eq!(app.status, "Failed to remove schedule: access denied");
    app.open_current_folder(Err("gone".to_string()));
    assert_eq!(app.status, "Could not open folder: gone");
    app.finish_action(Err("boom".to_string()));
    assert_eq!(app.status, "Error: boom");
    app.finish_action(Ok("done".to_string()));
    assert_eq!(app.status, "done");
    app.repo = "https://github.com/acme/widget".to_string();
    assert_eq!(app.open_release_page(), Ok("https://github.com/acme/widget/releases".to_string()));
    app.repo = "nope".to_string();
    assert_eq!(app.open_release_page(), Err("Invalid GitHub repository: nope".to_string()));
}

#[test]
fn scheduled_task_command_line() {
    assert_eq!(task_name("My Profile!"), "DistronomiconDesktop-My_Profile_");
    let args = install_args("p\"1", "C:\\D.exe", "update", 5000);
    assert_eq!(
        args,
        vec![
            "/Create", "/F", "/SC", "MINUTE", "/MO", "1440", "/TN", "DistronomiconDesktop-p_1", "/TR",
            "\"C:\\D.exe\" --scheduled-profile \"p1\" --scheduled-mode update",
        ]
    );
    assert_eq!(install_args("p", "x", "check", 0)[5], "1");
    assert_eq!(uninstall_args("p"), vec!["/Delete", "/F", "/TN", "DistronomiconDesktop-p"]);
}

#[test]
fn scheduled_runs_from_arguments() {
    let args: Vec<String> = ["exe", "--scheduled-profile", "work", "--scheduled-mode", "Update"]
        .iter()
        .map(|s| s.to_string())
        .collect();
    let run = maybe_run(&args).unwrap();
    assert_eq!(run.profile, "work");
    assert_eq!(run.mode, "Update");
    assert!(runs_update(&run.mode));
    assert!(!runs_update("check"));
    let only: Vec<String> = ["exe", "--scheduled-profile", "work"].iter().map(|s| s.to_string()).collect();
    assert_eq!(maybe_run(&only).unwrap().mode, "check");
    assert!(maybe_run(&["exe".to_string()]).is_none());
    assert_eq!(arg_value(&args, "--scheduled-mode"), Some("Update".to_string()));
    assert_eq!(arg_value(&args, "--missing"), None);
    assert_eq!(exit_code(true), 0);
    assert_eq!(exit_code(false), 1);
    assert_eq!(log_file_name("a/b:c"), "a_b_c.log");
    assert_eq!(log_text(&Ok("fine".to_string())), "OK\nfine\n");
    assert_eq!(log_text(&Err("bad".to_string())), "ERROR\nbad\n");
    assert_eq!(find_profile(vec![named("a"), named("b")], "b").unwrap().name, "b");
    match find_profile(vec![named("a")], "x") {
        Err(e) => assert_eq!(e, "Profile not found: x"),
        Ok(_) => panic!("found a missing profile"),
    }
}

fn asset(name: &str) -> Asset {
    Asset { name: name.to_string(), url: format!("https://example.invalid/{name}"), size: 1 }
}

fn fetched(tag: &str, assets: Vec<Asset>) -> FetchResult {
    FetchResult {
        release: Some(Release {
            tag_name: tag.to_string(),
            html_url: String::new(),
            assets,
            draft: false,
            prerelease: false,
            body: String::new(),
            created_at: None,
            published_at: None,
        }),
        validators: Validators::empty(),
        not_modified: false,
    }
}

#[test]
fn self_update_decisions() {
    assert_eq!(compare_versions("v1.10.0", "v1.9.9"), 1);
    assert_eq!(compare_versions("1.2", "1.2.0"), 0);
    assert_eq!(compare_versions("0.9", "1.0"), -1);
    match run(Language::En, fetched("v1.0.0", vec![]), "1.0.0", "x86_64") {
        Ok(SelfUpdate::UpToDate(m)) => {
            assert_eq!(m, "Distronomicon Desktop is already up to date: 1.0.0")
        }
        _ => panic!("same version is up to date"),
    }
    let assets = vec![asset("notes.txt"), asset("DistronomiconDesktop.exe"), asset("SHA256SUMS.txt")];
    match run(Language::En, fetched("v1.1.0", assets), "1.0.0", "x86_64") {
        Ok(SelfUpdate::Install { asset, checksum }) => {
            assert_eq!(asset.name, "DistronomiconDesktop.exe");
            assert_eq!(checksum.name, "SHA256SUMS.txt");
        }
        _ => panic!("a newer release installs"),
    }
    assert!(run(Language::En, fetched("v1.1.0", vec![asset("other.exe")]), "1.0.0", "x86_64").is_err());
    let none = FetchResult { release: None, validators: Validators::empty(), not_modified: false };
    match run(Language::En, none, "1.0.0", "x86_64") {
        Err(e) => assert_eq!(e, "No self-update release is available."),
        Ok(_) => panic!("nothing to install"),
    }
    assert_eq!(
        apply_script("new.exe", "D.exe"),
        "@echo off\r\nping 127.0.0.1 -n 3 >nul\r\nmove /Y \"new.exe\" \"D.exe\" >nul\r\nstart \"\" \"D.exe\"\r\ndel \"%~f0\"\r\n"
    );
}

#[test]
fn actions_are_checked_before_they_run() {
    let mut app = DesktopApp::new("base", Vec::new());
    app.language = Language::En;
    app.repo = "not-a-repo".to_string();
    assert!(app.prepare_action(Action::Check).is_none());
    assert_eq!(app.status, "Use the repository format owner/repository.");
    assert!(app.prepare_action(Action::Version).is_some());
    assert!(app.prepare_action(Action::SelfUpdate).is_some());
    app.repo = "https://github.com/acme/widget".to_string();
    let c = app.prepare_action(Action::Update).unwrap();
    assert_eq!(c.repo, "acme/widget");
    assert_eq!(outcome_text(Language::PtBr, Err("x".to_string())), "Erro: x");
    assert_eq!(outcome_text(Language::PtBr, Ok("ok".to_string())), "ok");
}

#[test]
fn pasted_repository_becomes_the_application_name() {
    let mut app = DesktopApp::new("base", Vec::new());
    app.app_name = "https://github.com/acme/widget".to_string();
    app.correct_app_name();
    assert_eq!(app.app_name, "widget");
    app.app_name = "my-tool".to_string();
    app.correct_app_name();
    assert_eq!(app.app_name, "my-tool");
}
