use distronomicon::config::Language;
use distronomicon::profiles::{default_path, export_path, remove, upsert, Profile};

#[test]
fn migrates_legacy_prerelease_profile_to_nightly() {
    let profile = Profile {
        allow_prerelease: true,
        channel: "stable".into(),
        ..Profile::default()
    };
    assert_eq!(profile.effective_channel(), "nightly");
}

#[test]
fn keeps_explicit_beta_channel() {
    let profile = Profile {
        allow_prerelease: true,
        channel: "beta".into(),
        ..Profile::default()
    };
    assert_eq!(profile.effective_channel(), "beta");
}

fn named(name: &str, repo: &str) -> Profile {
    Profile { name: name.into(), repo: repo.into(), ..Profile::default() }
}

#[test]
fn upsert_replaces_same_name_ignoring_case() {
    let mut list = vec![named("Beta", "a/b"), named("alpha", "c/d")];
    upsert(&mut list, named("BETA", "x/y"));
    assert_eq!(list.len(), 2);
    assert_eq!(list[0].name, "BETA");
    assert_eq!(list[0].repo, "x/y");
    assert_eq!(list[1].name, "alpha");
}

#[test]
fn upsert_inserts_and_sorts_by_lowercase_name() {
    let mut list = vec![named("zeta", ""), named("Beta", "")];
    upsert(&mut list, named("alpha", ""));
    let names: Vec<&str> = list.iter().map(|p| p.name.as_str()).collect();
    assert_eq!(names, vec!["alpha", "Beta", "zeta"]);
}

#[test]
fn remove_drops_every_case_variant() {
    let mut list = vec![named("App", ""), named("other", ""), named("APP", "")];
    remove(&mut list, "app");
    assert_eq!(list.len(), 1);
    assert_eq!(list[0].name, "other");
    remove(&mut list, "missing");
    assert_eq!(list.len(), 1);
}

#[test]
fn upsert_then_remove_round_trip() {
    let mut list = vec![named("one", "")];
    upsert(&mut list, named("Two", "r/s"));
    assert!(list.iter().any(|p| p.name == "Two" && p.repo == "r/s"));
    remove(&mut list, "two");
    assert!(!list.iter().any(|p| p.name.eq_ignore_ascii_case("two")));
    assert_eq!(list.len(), 1);
    assert_eq!(list[0].name, "one");
}

#[test]
fn config_from_profile_fills_defaults() {
    let profile = Profile { architecture: String::new(), channel: String::new(), ..named("p", "o/r") };
    let config = profile.to_config(Language::En, "tok".into());
    assert_eq!(config.channel, "stable");
    assert_eq!(config.architecture, "auto");
    assert_eq!(config.github_token, "tok");
    assert_eq!(config.repo, "o/r");
    assert_eq!(config.retain, 3);
}

#[test]
fn profile_paths() {
    assert_eq!(default_path("C:/Tools"), "C:/Tools\\.distronomicon\\profiles.json");
    assert_eq!(export_path("base/"), "base/DistronomiconProfiles.json");
    assert_eq!(export_path(""), "DistronomiconProfiles.json");
}

#[test]
fn saving_twice_is_saving_once() {
    let mut once = vec![named("a", "x/1"), named("c", "x/3")];
    upsert(&mut once, named("b", "x/2"));
    let mut twice = vec![named("a", "x/1"), named("c", "x/3")];
    upsert(&mut twice, named("b", "x/2"));
    upsert(&mut twice, named("b", "x/2"));
    let names = |v: &Vec<Profile>| v.iter().map(|p| (p.name.clone(), p.repo.clone())).collect::<Vec<_>>();
    assert_eq!(names(&once), names(&twice));
}

#[test]
fn saving_keeps_names_unique_and_sorted() {
    let mut list = vec![named("alpha", "a/1"), named("Beta", "b/1"), named("gamma", "g/1")];
    upsert(&mut list, named("BETA", "b/2"));
    assert_eq!(list.len(), 3);
    assert_eq!((list[1].name.as_str(), list[1].repo.as_str()), ("BETA", "b/2"));
    upsert(&mut list, named("delta", "d/1"));
    let names: Vec<&str> = list.iter().map(|p| p.name.as_str()).collect();
    assert_eq!(names, vec!["alpha", "BETA", "delta", "gamma"]);
}
