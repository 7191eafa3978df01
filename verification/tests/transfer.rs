use distronomicon::retry::{LockStep, LockWait};
use distronomicon::features::backup_plan;
use distronomicon::features::{
    backup_items, current_release_path, ensure_free_space, estimated_required_bytes, ps_escape,
    recover_state, verify_authenticode_tree, ExeStatus, UNKNOWN_SIZE_ESTIMATE,
};
use distronomicon::config::Language;
use distronomicon::release::Asset;
use distronomicon::retry::{is_resumed, range_header, Outcome, Retry, RetryStep};

fn waits(step: RetryStep) -> Option<u64> {
    match step {
        RetryStep::Wait(ms) => Some(ms),
        _ => None,
    }
}

#[test]
fn transient_failures_back_off_then_fail() {
    let mut r = Retry::new();
    assert_eq!(waits(r.next(Outcome::Transient("503".to_string()))), Some(500));
    assert_eq!(waits(r.next(Outcome::Transient("503".to_string()))), Some(1000));
    assert_eq!(waits(r.next(Outcome::Transient("503".to_string()))), Some(2000));
    match r.next(Outcome::Transient("timeout".to_string())) {
        RetryStep::Fail(e) => assert_eq!(e, "timeout"),
        _ => panic!("a fourth transient failure must end the download"),
    }
}

#[test]
fn client_errors_and_success_end_at_once() {
    let mut r = Retry::new();
    match r.next(Outcome::ClientError("404".to_string())) {
        RetryStep::Fail(e) => assert_eq!(e, "404"),
        _ => panic!("a client error is not retried"),
    }
    assert!(matches!(r.next(Outcome::Success), RetryStep::Proceed));
    assert_eq!(r.attempt, 0);
}

#[test]
fn resuming_partial_downloads() {
    assert_eq!(range_header(0), None);
    assert_eq!(range_header(1234), Some("bytes=1234-".to_string()));
    assert!(is_resumed(10, 206));
    assert!(!is_resumed(10, 200));
    assert!(!is_resumed(0, 206));
}

#[test]
fn required_space_estimate() {
    let unknown = Asset { name: "a".to_string(), url: String::new(), size: 0 };
    assert_eq!(estimated_required_bytes(&unknown), UNKNOWN_SIZE_ESTIMATE);
    assert_eq!(UNKNOWN_SIZE_ESTIMATE, 256 * 1024 * 1024);
    let known = Asset { name: "a".to_string(), url: String::new(), size: 1000 };
    assert_eq!(estimated_required_bytes(&known), 3000);
    let huge = Asset { name: "a".to_string(), url: String::new(), size: u64::MAX / 2 };
    assert_eq!(estimated_required_bytes(&huge), u64::MAX);
}

#[test]
fn free_space_check() {
    assert_eq!(ensure_free_space(10, 10), Ok(10));
    assert_eq!(
        ensure_free_space(5 * 1048576, 300 * 1048576),
        Err("Insufficient disk space: required about 300 MB, available 5 MB".to_string())
    );
}

#[test]
fn backup_items_are_split_and_trimmed() {
    assert_eq!(
        backup_items(" config.ini ;\n\r data\\settings.json;;  "),
        vec!["config.ini".to_string(), "data\\settings.json".to_string()]
    );
    assert!(backup_items("").is_empty());
    assert!(backup_items(" ; \n").is_empty());
}

#[test]
fn state_recovery() {
    let ok = recover_state(Language::En, true, Ok(None), None, 5).unwrap();
    assert!(ok.state.is_none());
    assert_eq!(ok.message, "State is valid; no recovery is required.");
    let rebuilt = recover_state(Language::En, false, Ok(Some("v2".to_string())), Some("v3".to_string()), 7).unwrap();
    let s = rebuilt.state.unwrap();
    assert_eq!(s.latest_tag, "v2");
    assert_eq!(s.installed_at_unix, 7);
    assert_eq!(rebuilt.message, "State rebuilt: v2");
    let newest = recover_state(Language::PtBr, false, Ok(None), Some("v3".to_string()), 7).unwrap();
    assert_eq!(newest.message, "Estado reconstruído: v3");
    match recover_state(Language::En, false, Ok(None), None, 7) {
        Err(e) => assert_eq!(e, "No installed release was found to rebuild state."),
        Ok(_) => panic!("nothing to rebuild from"),
    }
    match recover_state(Language::En, false, Err("io".to_string()), None, 7) {
        Err(e) => assert_eq!(e, "io"),
        Ok(_) => panic!("the read error is passed on"),
    }
}

fn exe(path: &str, status: Result<&str, &str>) -> ExeStatus {
    ExeStatus { path: path.to_string(), status: status.map(str::to_string).map_err(str::to_string) }
}

#[test]
fn authenticode_summary() {
    assert_eq!(verify_authenticode_tree(false, &[]), Ok("Authenticode disabled".to_string()));
    assert_eq!(verify_authenticode_tree(true, &[]), Ok("No signed executable found".to_string()));
    let statuses = [exe("a.exe", Ok("Valid")), exe("b.exe", Ok("NotSigned")), exe("c.exe", Ok("valid"))];
    assert_eq!(
        verify_authenticode_tree(true, &statuses),
        Ok("Authenticode valid for 2 executable(s)".to_string())
    );
    let bad = [exe("a.exe", Ok("Valid")), exe("b.exe", Ok("HashMismatch")), exe("c.exe", Err("x"))];
    assert_eq!(
        verify_authenticode_tree(true, &bad),
        Err("Authenticode validation failed for b.exe: HashMismatch".to_string())
    );
    let failed = [exe("a.exe", Err("powershell missing"))];
    assert_eq!(verify_authenticode_tree(true, &failed), Err("powershell missing".to_string()));
}

#[test]
fn notification_text_is_escaped() {
    assert_eq!(ps_escape("a & b <c> \"d\" 'e'"), "a &amp; b &lt;c&gt; &quot;d&quot; &apos;e&apos;");
}

#[test]
fn current_release_folder() {
    assert_eq!(
        current_release_path("root", "app", Ok(Some("v1".to_string()))),
        Ok("root\\app\\releases\\v1".to_string())
    );
    assert_eq!(current_release_path("root", "app", Ok(None)), Err("No active release".to_string()));
    assert_eq!(current_release_path("root", "app", Err("io".to_string())), Err("io".to_string()));
}

#[test]
fn lock_waits_grow_to_a_second() {
    let mut w = LockWait::new();
    let mut waits = Vec::new();
    for _ in 0..6 {
        match w.busy(0, 30_000) {
            LockStep::Sleep(ms) => waits.push(ms),
            LockStep::GiveUp(_) => panic!("the budget is not spent"),
        }
    }
    assert_eq!(waits, vec![100, 200, 400, 800, 1000, 1000]);
    match w.busy(30_000, 30_000) {
        LockStep::GiveUp(m) => assert_eq!(m, "update lock is busy"),
        LockStep::Sleep(_) => panic!("the budget is spent"),
    }
}

#[test]
fn backup_plans() {
    assert!(backup_plan("state", "root", "app", " ; ", 7).is_none());
    let plan = backup_plan("state", "root", "app", "config.ini; C:\\data\\db.sqlite", 1700000000).unwrap();
    assert_eq!(plan.root, "state\\app\\backups\\1700000000");
    assert_eq!(plan.sources, vec!["root\\app\\bin\\config.ini".to_string(), "C:\\data\\db.sqlite".to_string()]);
}
