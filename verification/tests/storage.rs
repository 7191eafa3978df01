use distronomicon::history::{append, format_recent, HistoryEntry, HISTORY_LIMIT};
use distronomicon::release::Validators;
use distronomicon::state::{backup_path, previous_validators, save_state, save_validators, State};
use distronomicon::store::{atomic_backup_path, recover, Stored};

fn entry(n: u64) -> HistoryEntry {
    HistoryEntry::new("update", "v1", "v2", "tool.zip", "abc", "success", n)
}

fn state(tag: &str, etag: &str, modified: &str, at: u64) -> State {
    State {
        latest_tag: tag.to_string(),
        etag: etag.to_string(),
        last_modified: modified.to_string(),
        installed_at_unix: at,
    }
}

fn validators(etag: &str, modified: &str) -> Validators {
    Validators { etag: etag.to_string(), last_modified: modified.to_string() }
}

#[test]
fn backup_path_is_predictable() {
    assert!(backup_path("state.json").ends_with("state.json.bak"));
}

#[test]
fn backup_path_replaces_the_extension() {
    assert_eq!(backup_path("state.json"), "state.json.bak");
    assert_eq!(backup_path("dir/app.state.json"), "dir/app.state.json.bak");
    assert_eq!(backup_path("dir.d/state"), "dir.d/state.json.bak");
    assert_eq!(backup_path("dir/.hidden"), "dir/.hidden.json.bak");
}

#[test]
fn atomic_backup_sits_beside_the_file() {
    assert_eq!(atomic_backup_path("a/b/state.json"), "a/b/.state.json.bak");
    assert_eq!(atomic_backup_path("history.json"), ".history.json.bak");
    assert_eq!(atomic_backup_path("c:\\x\\p.json"), "c:\\x\\.p.json.bak");
}

#[test]
fn recover_prefers_the_primary_file() {
    assert_eq!(recover(Stored::Found(1), Stored::Found(2)), Ok(Some(1)));
    assert_eq!(recover::<i32>(Stored::Missing, Stored::Missing), Ok(None));
    assert_eq!(recover(Stored::Missing, Stored::Found(2)), Ok(Some(2)));
    assert_eq!(recover(Stored::Unreadable("bad".to_string()), Stored::Found(2)), Ok(Some(2)));
    assert_eq!(
        recover::<i32>(Stored::Unreadable("bad".to_string()), Stored::Missing),
        Err("bad".to_string())
    );
    assert_eq!(
        recover::<i32>(Stored::Unreadable("a".to_string()), Stored::Unreadable("b".to_string())),
        Err("b".to_string())
    );
    assert_eq!(
        recover::<i32>(Stored::Missing, Stored::Unreadable("b".to_string())),
        Err("b".to_string())
    );
}

#[test]
fn history_keeps_the_newest_five_hundred() {
    let mut items = Vec::new();
    for n in 0..510u64 {
        items = append(items, entry(n));
        assert!(items.len() <= HISTORY_LIMIT);
        assert_eq!(items.last().unwrap().timestamp_unix, n);
    }
    assert_eq!(items.len(), 500);
    assert_eq!(items[0].timestamp_unix, 10);
}

#[test]
fn history_append_below_the_limit_keeps_everything() {
    let items = append(vec![entry(1), entry(2)], entry(3));
    let times: Vec<u64> = items.iter().map(|e| e.timestamp_unix).collect();
    assert_eq!(times, vec![1, 2, 3]);
}

#[test]
fn recent_history_lists_newest_first() {
    let items = vec![
        HistoryEntry::new("update", "", "v1", "a.zip", "", "success", 10),
        HistoryEntry::new("rollback", "v1", "v0", "", "", "failed", 20),
    ];
    assert_eq!(
        format_recent(&items, 20),
        "20 | rollback | v1 -> v0 | failed\n10 | update |  -> v1 | success\n"
    );
    assert_eq!(format_recent(&items, 1), "20 | rollback | v1 -> v0 | failed\n");
    assert_eq!(format_recent(&items, 0), "");
    assert_eq!(format_recent(&Vec::new(), 5), "");
}

#[test]
fn checked_state_keeps_validators_and_install_time() {
    let old = Some(state("v1", "\"e1\"", "Mon", 77));
    let s = save_validators(old, "v2", &validators("\"e1\"", "Mon"), &validators("", "Tue"), 99);
    assert_eq!(s.latest_tag, "v2");
    assert_eq!(s.etag, "\"e1\"");
    assert_eq!(s.last_modified, "Tue");
    assert_eq!(s.installed_at_unix, 77);
    let fresh = save_validators(None, "v2", &validators("", ""), &validators("", ""), 99);
    assert_eq!(fresh.installed_at_unix, 99);
    assert_eq!(fresh.etag, "");
}

#[test]
fn installed_state_takes_the_new_time() {
    let s = save_state(
        Some(state("v1", "x", "y", 5)),
        "v2",
        &validators("x", "y"),
        &validators("z", ""),
        42,
    );
    assert_eq!(s.latest_tag, "v2");
    assert_eq!(s.etag, "z");
    assert_eq!(s.last_modified, "y");
    assert_eq!(s.installed_at_unix, 42);
}

#[test]
fn previous_validators_come_from_the_state() {
    let v = previous_validators(&Some(state("v1", "e", "m", 1)));
    assert_eq!(v.etag, "e");
    assert_eq!(v.last_modified, "m");
    let none = previous_validators(&None);
    assert_eq!(none.etag, "");
    assert_eq!(none.last_modified, "");
}

#[test]
fn atomic_writes_use_hidden_siblings() {
    assert_eq!(distronomicon::store::atomic_temp_path("a/b/state.json"), "a/b/.state.json.tmp");
    assert_eq!(distronomicon::store::atomic_temp_path("p.json"), ".p.json.tmp");
}
