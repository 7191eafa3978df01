use distronomicon::extract::is_absolute_path;
use distronomicon::extract::{
    admit_entry, check_copied, is_symlink_mode, safe_relative, EntryAction, EntryKind, ExtractBudget,
    MAX_FILES, MAX_FILE_BYTES, MAX_TOTAL_BYTES,
};
use distronomicon::install::{activate_release, current_tag, release_dir, unpack, ArchiveKind};
use distronomicon::paths::join;

#[test]
fn current_tag_is_trimmed() {
    assert_eq!(current_tag(Some("  v1.2.3\r\n")), Some("v1.2.3".to_string()));
    assert_eq!(current_tag(Some(" \n")), None);
    assert_eq!(current_tag(None), None);
}

#[test]
fn release_layout() {
    assert_eq!(join("root", "app"), "root\\app");
    assert_eq!(join("root/", "app"), "root/app");
    assert_eq!(join("C:\\dir", "managed"), "C:\\dir\\managed");
    assert_eq!(join("C:", "x"), "C:x");
    assert_eq!(join("C:\\dir", "D:\\other"), "D:\\other");
    assert_eq!(join("C:\\dir", "D:rel"), "D:rel");
    assert_eq!(join("C:\\dir", "\\\\srv\\share\\x"), "\\\\srv\\share\\x");
    assert_eq!(join("C:\\dir\\sub", "\\top"), "C:\\top");
    assert_eq!(join("\\\\srv\\share\\dir", "/top"), "\\\\srv\\share/top");
    assert_eq!(join("dir", "\\top"), "\\top");
    assert_eq!(join("", "app"), "app");
    assert_eq!(release_dir("root", "app", "v1"), "root\\app\\releases\\v1");
    let a = activate_release("root", "app", "v1", true).unwrap();
    assert_eq!(a.release_dir, "root\\app\\releases\\v1");
    assert_eq!(a.bin_dir, "root\\app\\bin");
    assert_eq!(a.bin_new, "root\\app\\bin.new");
    assert_eq!(a.bin_old, "root\\app\\bin.old");
    assert_eq!(a.current_file, "root\\app\\current.txt");
    assert_eq!(a.current_temp, "root\\app\\current.tmp");
    match activate_release("root", "app", "v9", false) {
        Err(e) => assert_eq!(e, "release not found: root\\app\\releases\\v9"),
        Ok(_) => panic!("a missing release was activated"),
    }
}

#[test]
fn archive_kinds() {
    assert_eq!(unpack("tool.ZIP"), Some(ArchiveKind::Zip));
    assert_eq!(unpack("tool.tar.gz"), Some(ArchiveKind::TarGz));
    assert_eq!(unpack("tool.tgz"), Some(ArchiveKind::TarGz));
    assert_eq!(unpack("tool.tar.bz2"), Some(ArchiveKind::TarBz2));
    assert_eq!(unpack("tool.tbz2"), Some(ArchiveKind::TarBz2));
    assert_eq!(unpack("tool.tar.xz"), Some(ArchiveKind::TarXz));
    assert_eq!(unpack("tool.txz"), Some(ArchiveKind::TarXz));
    assert_eq!(unpack("tool.tar.zst"), Some(ArchiveKind::TarZst));
    assert_eq!(unpack("tool.exe"), None);
}

#[test]
fn archive_paths_stay_inside() {
    assert_eq!(safe_relative("bin/tool.exe"), Ok(()));
    assert_eq!(safe_relative("a..b/c"), Ok(()));
    assert_eq!(safe_relative("../evil"), Err("archive paths containing '..' are not allowed".to_string()));
    assert_eq!(safe_relative("a\\..\\b"), Err("archive paths containing '..' are not allowed".to_string()));
    assert_eq!(safe_relative("a/.."), Err("archive paths containing '..' are not allowed".to_string()));
    assert_eq!(safe_relative("C:\\Windows"), Err("absolute archive paths are not allowed".to_string()));
    assert_eq!(safe_relative("//server/share"), Err("absolute archive paths are not allowed".to_string()));
}

#[test]
fn entry_kinds() {
    let mut b = ExtractBudget::new();
    assert_eq!(admit_entry(&mut b, EntryKind::Directory, "d", 0, None), Ok(EntryAction::CreateDirectory));
    assert_eq!(
        admit_entry(&mut b, EntryKind::SymbolicLink, "l", 0, None),
        Err("symbolic links are not allowed: l".to_string())
    );
    assert_eq!(
        admit_entry(&mut b, EntryKind::Other, "fifo", 0, None),
        Err("unsupported archive entry type: fifo".to_string())
    );
    assert_eq!(admit_entry(&mut b, EntryKind::File, "f", 10, Some(5)), Ok(EntryAction::WriteFile));
    assert_eq!(b.files, 1);
    assert_eq!(b.total, 10);
}

#[test]
fn entry_limits() {
    let mut b = ExtractBudget::new();
    assert_eq!(
        admit_entry(&mut b, EntryKind::File, "big", MAX_FILE_BYTES + 1, None),
        Err("archive file too large: big".to_string())
    );
    let mut b = ExtractBudget::new();
    assert_eq!(
        admit_entry(&mut b, EntryKind::File, "bomb", 1000, Some(1)),
        Err("archive decompression ratio exceeded: bomb".to_string())
    );
    let mut b = ExtractBudget::new();
    assert_eq!(admit_entry(&mut b, EntryKind::File, "ok", 100, Some(1)), Ok(EntryAction::WriteFile));
    let mut b = ExtractBudget { files: MAX_FILES, total: 0 };
    assert_eq!(
        admit_entry(&mut b, EntryKind::File, "one-more", 1, None),
        Err("archive file-count limit exceeded".to_string())
    );
    let mut b = ExtractBudget { files: 0, total: MAX_TOTAL_BYTES };
    assert_eq!(
        admit_entry(&mut b, EntryKind::File, "x", 1, None),
        Err("archive extracted-size limit exceeded".to_string())
    );
    assert_eq!(check_copied(MAX_FILE_BYTES, "a"), Ok(()));
    assert_eq!(check_copied(MAX_FILE_BYTES + 1, "a"), Err("archive file too large: a".to_string()));
}

#[test]
fn symlink_modes() {
    assert!(is_symlink_mode(0o120777));
    assert!(!is_symlink_mode(0o100644));
    assert!(!is_symlink_mode(0o040755));
}

#[test]
fn absolute_windows_paths() {
    assert!(is_absolute_path("C:\\data"));
    assert!(is_absolute_path("d:/data"));
    assert!(is_absolute_path("\\\\server\\share"));
    assert!(!is_absolute_path("data\\x"));
    assert!(!is_absolute_path("\\data"));
    assert!(!is_absolute_path("C:data"));
}

#[test]
fn rooted_and_drive_entries_are_refused() {
    let absolute = Err("absolute archive paths are not allowed".to_string());
    assert_eq!(safe_relative("C:../x"), absolute);
    assert_eq!(safe_relative("C:..\\x"), absolute);
    assert_eq!(safe_relative("d:.."), absolute);
    assert_eq!(safe_relative("C:evil.exe"), absolute);
    assert_eq!(safe_relative("\\evil.exe"), absolute);
    assert_eq!(safe_relative("/evil.exe"), absolute);
    assert_eq!(safe_relative("1:../x"), Ok(()));
    assert_eq!(safe_relative("bin/x:y"), Ok(()));
}

#[test]
fn admitted_entries_join_inside_the_destination() {
    for name in ["bin/tool.exe", "a..b\\c", "x"] {
        assert_eq!(safe_relative(name), Ok(()));
        assert_eq!(join("C:\\dest", name), format!("C:\\dest\\{name}"));
        assert_eq!(join("C:\\dest\\", name), format!("C:\\dest\\{name}"));
    }
}
