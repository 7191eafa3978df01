use distronomicon::assets::{detect_architecture, score, select, select_asset, select_for_arch, AssetError};
use distronomicon::release::{encode_tag, pick_from_list, Asset, Release};

fn asset(name: &str) -> Asset {
    Asset { name: name.to_string(), url: format!("https://example.invalid/{name}"), size: 1 }
}

#[test]
fn prefers_requested_architecture() {
    assert!(score("tool-windows-x64.zip", "x64") > score("tool-windows-arm64.zip", "x64"));
    assert!(score("tool-windows-arm64.zip", "arm64") > score("tool-windows-x64.zip", "arm64"));
    assert!(score("tool-win32.zip", "x86") > score("tool-win64.zip", "x86"));
}

#[test]
fn score_exact_values() {
    assert_eq!(score("tool-windows-x64.zip", "x64"), 40 + 8 + 45);
    assert_eq!(score("tool-linux-x64.tar.gz", "x64"), -100 + 45);
    assert_eq!(score("Tool-Win32-Portable.EXE", "x86"), 40 + 7 + 4 + 45);
}

#[test]
fn encodes_slashes_in_tag_names() {
    assert_eq!(encode_tag("release/1.3"), "release%2F1.3");
}

#[test]
fn encodes_non_ascii_bytes() {
    assert_eq!(encode_tag("v1 é~_.-"), "v1%20%C3%A9~_.-");
}

#[test]
fn architecture_labels() {
    assert_eq!(detect_architecture("x86_64"), "x64");
    assert_eq!(detect_architecture("aarch64"), "arm64");
    assert_eq!(detect_architecture("i686"), "x86");
    assert_eq!(detect_architecture("riscv64"), "x64");
}

#[test]
fn select_prefers_best_score_then_first() {
    let assets = vec![
        asset("tool-linux-x64.zip"),
        asset("tool-windows-arm64.zip"),
        asset("tool-windows-x64.zip"),
        asset("tool-windows-amd64.zip"),
        asset("SHA256SUMS"),
    ];
    let chosen = select_for_arch(&assets, r"\.zip$", "x64", "x86_64").unwrap();
    assert_eq!(chosen.name, "tool-windows-x64.zip");
    let chosen = select_for_arch(&assets, r"\.zip$", "arm64", "x86_64").unwrap();
    assert_eq!(chosen.name, "tool-windows-arm64.zip");
    let chosen = select(&assets, r"\.zip$", "aarch64").unwrap();
    assert_eq!(chosen.name, "tool-windows-arm64.zip");
    assert!(matches!(select(&assets, r"\.msi$", "x86_64"), Err(AssetError::NoMatch(p)) if p == r"\.msi$"));
    assert!(matches!(select(&assets, r"(", "x86_64"), Err(AssetError::InvalidPattern(_))));
}

#[test]
fn select_asset_takes_first_match() {
    let assets = vec![asset("a.zip"), asset("SHA256SUMS"), asset("sha256.txt")];
    assert_eq!(select_asset(&assets, r"(?i)sha256").unwrap().name, "SHA256SUMS");
    assert!(matches!(select_asset(&assets, "nothing"), Err(AssetError::NoMatch(_))));
}

fn release(tag: &str, draft: bool, prerelease: bool, published: Option<&str>, created: Option<&str>) -> Release {
    Release {
        tag_name: tag.to_string(),
        html_url: String::new(),
        assets: Vec::new(),
        draft,
        prerelease,
        body: String::new(),
        created_at: created.map(str::to_string),
        published_at: published.map(str::to_string),
    }
}

#[test]
fn list_channel_picks_newest_eligible_release() {
    let list = || {
        vec![
            release("old", false, false, Some("2024-01-01T00:00:00Z"), None),
            release("draft", true, false, Some("2025-06-01T00:00:00Z"), None),
            release("beta", false, true, None, Some("2025-03-01T00:00:00Z")),
            release("new", false, false, Some("2025-02-01T00:00:00Z"), None),
            release("undated", false, false, None, None),
        ]
    };
    assert_eq!(pick_from_list(list(), None).unwrap().tag_name, "beta");
    assert_eq!(pick_from_list(list(), Some(false)).unwrap().tag_name, "new");
    assert_eq!(pick_from_list(list(), Some(true)).unwrap().tag_name, "beta");
    let only_drafts = vec![release("d", true, false, None, None)];
    match pick_from_list(only_drafts, None) {
        Err(e) => assert_eq!(e, "No GitHub release found for selected channel"),
        Ok(_) => panic!("a draft was picked"),
    }
}

#[test]
fn list_channel_ties_keep_list_order() {
    let list = vec![
        release("first", false, false, Some("2025-01-01"), None),
        release("second", false, false, Some("2025-01-01"), None),
    ];
    assert_eq!(pick_from_list(list, None).unwrap().tag_name, "first");
}

#[test]
fn unreserved_tags_are_kept_as_they_are() {
    assert_eq!(encode_tag("v1.2-rc_3~x"), "v1.2-rc_3~x");
    assert_ne!(encode_tag("v1 2"), "v1 2");
    assert_eq!(encode_tag("é"), "%C3%A9");
}
