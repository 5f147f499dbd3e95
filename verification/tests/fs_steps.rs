use rnit::fs::create::{create_entry, CreateNext};
use rnit::fs::delete::delete_entry;
use rnit::fs::dry_run::{dry_run_create, dry_run_delete, dry_run_rename};
use rnit::fs::errors::{FsError, IoFailure, IoKind};
use rnit::fs::info::get_file_info;
use rnit::fs::listing::{extract_dir_entry_name, find_current_dir, shows_entry};
use rnit::fs::rename::{rename_entry, RenameNext};
use rnit::fs::types::{build_file_entry, EntryMeta, FileEntry};

fn failure(kind: IoKind, message: &str) -> IoFailure {
    IoFailure { kind, message: message.to_string() }
}

fn file_meta(len: u64) -> EntryMeta {
    EntryMeta { len, is_dir: false }
}

fn dir_meta() -> EntryMeta {
    EntryMeta { len: 4096, is_dir: true }
}

fn entry(name: &str) -> FileEntry {
    FileEntry { name: name.to_string(), size: 1, is_dir: false }
}

#[test]
fn test_build_file_entry_regular_file() {
    let entry = build_file_entry("test.txt".to_string(), file_meta(0));

    assert_eq!(entry.name, "test.txt");
    assert_eq!(entry.size, 0);
    assert!(!entry.is_dir);
}

#[test]
fn test_build_file_entry_directory() {
    let entry = build_file_entry("my_dir".to_string(), dir_meta());

    assert_eq!(entry.name, "my_dir");
    assert!(entry.is_dir);
}

#[test]
fn test_build_file_entry_preserves_custom_metadata() {
    let entry = build_file_entry("data.bin".to_string(), file_meta(11));

    assert_eq!(entry.name, "data.bin");
    assert_eq!(entry.size, 11);
    assert!(!entry.is_dir);
}

#[test]
fn delete_a_file() {
    let step = delete_entry("/tmp/x/report.txt", false).unwrap();
    assert_eq!(step.target, "/tmp/x/report.txt");
    let step = step.on_lookup(Ok(file_meta(7))).unwrap();
    assert!(!step.remove_dir);
    let e = step.on_removed(Ok(())).unwrap();
    assert_eq!(e.name, "report.txt");
    assert_eq!(e.size, 7);
}

#[test]
fn delete_refuses_wrong_type() {
    let err = delete_entry("d", false).unwrap().on_lookup(Ok(dir_meta())).err().unwrap();
    assert_eq!(
        err.message(),
        "Type mismatch: Target is a directory. Use `--dir` to delete directories: d"
    );
    let err = delete_entry("f", true).unwrap().on_lookup(Ok(file_meta(1))).err().unwrap();
    assert_eq!(err.message(), "Type mismatch: Target is a file. Remove `--dir` to delete files: f");
}

#[test]
fn delete_missing_target_and_nonempty_directory() {
    let err = delete_entry("gone.txt", false)
        .unwrap()
        .on_lookup(Err(failure(IoKind::NotFound, "No such file or directory (os error 2)")))
        .err()
        .unwrap();
    assert_eq!(err, FsError::NotFound { label: "Target".to_string(), path: "gone.txt".to_string() });
    let step = delete_entry("full", true).unwrap().on_lookup(Ok(dir_meta())).unwrap();
    assert!(step.remove_dir);
    let err = step.on_removed(Err(failure(IoKind::DirectoryNotEmpty, "Directory not empty (os error 39)"))).unwrap_err();
    assert_eq!(err, FsError::DirectoryNotEmpty { path: "full".to_string() });
    assert_eq!(err.message(), "Directory not empty: full");
}

#[test]
fn delete_refuses_bad_names() {
    assert!(matches!(delete_entry("a/", false), Err(FsError::InvalidName { .. })));
    assert!(matches!(delete_entry("..", true), Err(FsError::InvalidName { .. })));
}

#[test]
fn rename_with_parent_check() {
    let step = rename_entry("old.txt", "sub/new.txt").unwrap();
    let next = step.on_lookup(Ok(file_meta(5))).unwrap();
    let check = match next {
        RenameNext::CheckParent(c) => c,
        RenameNext::LookupDestination(_) => panic!("the parent must be checked"),
    };
    assert_eq!(check.parent, "sub");
    let dest = check.on_parent(true).unwrap();
    let mv = dest.on_lookup(Err(failure(IoKind::NotFound, "missing"))).unwrap();
    let e = mv.on_moved(Ok(())).unwrap();
    assert_eq!(e.name, "new.txt");
    assert_eq!(e.size, 5);
}

#[test]
fn rename_refusals() {
    let err = rename_entry("a/b", "a//b").unwrap_err();
    assert_eq!(err.message(), "Source and destination paths are identical");
    assert!(matches!(err, FsError::Io(ref f) if f.kind == IoKind::InvalidInput));
    let next = rename_entry("a", "b").unwrap().on_lookup(Ok(file_meta(1))).unwrap();
    let dest = match next {
        RenameNext::LookupDestination(d) => d,
        RenameNext::CheckParent(_) => panic!("a bare name has no parent to check"),
    };
    let err = dest.on_lookup(Ok(file_meta(2))).err().unwrap();
    assert_eq!(err, FsError::AlreadyExists { label: "Destination".to_string(), path: "b".to_string() });
    let err = rename_entry("missing", "b").unwrap().on_lookup(Err(failure(IoKind::NotFound, "x"))).err().unwrap();
    assert_eq!(err.message(), "Source not found: missing");
    let next = rename_entry("a", "x/y/z").unwrap().on_lookup(Ok(file_meta(1))).unwrap();
    if let RenameNext::CheckParent(c) = next {
        assert_eq!(c.on_parent(false).err().unwrap(), FsError::ParentNotFound { path: "x/y".to_string() });
    } else {
        panic!("x/y must be checked");
    }
}

#[test]
fn rename_failures_are_explained() {
    let mv = |kind: IoKind| {
        let next = rename_entry("a", "b").unwrap().on_lookup(Ok(file_meta(1))).unwrap();
        match next {
            RenameNext::LookupDestination(d) => d
                .on_lookup(Err(failure(IoKind::NotFound, "")))
                .unwrap()
                .on_moved(Err(failure(kind, "raw"))),
            RenameNext::CheckParent(_) => panic!("no parent"),
        }
    };
    let err = mv(IoKind::CrossesDevices).unwrap_err();
    assert_eq!(err.message(), "Cannot rename across filesystems (use copy+delete instead)");
    assert!(matches!(err, FsError::Io(ref f) if f.kind == IoKind::InvalidInput));
    let err = mv(IoKind::PermissionDenied).unwrap_err();
    assert_eq!(err.message(), "Permission denied to rename: b");
    let err = mv(IoKind::Other).unwrap_err();
    assert_eq!(err.message(), "raw");
}

#[test]
fn create_steps() {
    let next = create_entry("notes.txt", false).unwrap();
    let lookup = match next {
        CreateNext::LookupTarget(l) => l,
        CreateNext::CheckParent(_) => panic!("no parent to check"),
    };
    let err = lookup.on_lookup(Ok(file_meta(0))).err().unwrap();
    assert_eq!(err.message(), "File already exists: notes.txt");

    let next = create_entry("/tmp/box/new_dir", true).unwrap();
    let check = match next {
        CreateNext::CheckParent(c) => c,
        CreateNext::LookupTarget(_) => panic!("parent must be checked"),
    };
    assert_eq!(check.parent, "/tmp/box");
    let make = check.on_parent(true).unwrap().on_lookup(Err(failure(IoKind::NotFound, ""))).unwrap();
    assert!(make.is_dir);
    let finish = make.on_made(Ok(())).unwrap();
    let e = finish.on_lookup(Ok(dir_meta())).unwrap();
    assert_eq!(e.name, "new_dir");
    assert!(e.is_dir);

    let err = match create_entry("/tmp/box/d2", true).unwrap() {
        CreateNext::CheckParent(c) => c.on_parent(true).unwrap().on_lookup(Ok(dir_meta())).err().unwrap(),
        CreateNext::LookupTarget(_) => panic!("parent must be checked"),
    };
    assert_eq!(err.message(), "Directory already exists: /tmp/box/d2");
    assert!(create_entry("bad\0name", false).is_err());
}

#[test]
fn info_steps() {
    let step = get_file_info("/etc/hosts").unwrap();
    let e = step.on_lookup(Ok(file_meta(220))).unwrap();
    assert_eq!(e.name, "hosts");
    let err = get_file_info("/etc/hosts").unwrap().on_lookup(Err(failure(IoKind::PermissionDenied, "denied"))).unwrap_err();
    assert_eq!(err.message(), "denied");
    assert!(get_file_info("/").is_err());
}

#[test]
fn test_extract_dir_entry_name_handles_invalid_utf8() {
    assert_eq!(extract_dir_entry_name(Some("a".to_string())).unwrap(), "a");
    assert_eq!(
        extract_dir_entry_name(None).unwrap_err(),
        FsError::InvalidName { reason: "Filename contains invalid UTF-8".to_string() }
    );
}

#[test]
fn find_by_glob_ignores_case() {
    let entries = vec![entry("main.rs"), entry("README.md"), entry("lib.RS"), entry("notes.txt")];
    let found = find_current_dir(entries, "*.rs").unwrap();
    let names: Vec<&str> = found.iter().map(|e| e.name.as_str()).collect();
    assert_eq!(names, vec!["main.rs", "lib.RS"]);
    let found = find_current_dir(vec![entry("config_a.json"), entry("config.json")], "config_*.json").unwrap();
    assert_eq!(found.len(), 1);
    assert_eq!(found[0].name, "config_a.json");
}

#[test]
fn find_reports_invalid_glob() {
    let err = find_current_dir(vec![entry("a")], "[abc").unwrap_err();
    match &err {
        FsError::InvalidGlob { pattern, reason } => {
            assert_eq!(pattern, "[abc");
            assert!(reason.contains("unclosed character class"));
        }
        other => panic!("unexpected {:?}", other),
    }
    assert!(err.message().starts_with("Invalid glob pattern: [abc — "));
}

#[test]
fn error_equality_and_messages() {
    let a = FsError::Io(failure(IoKind::NotFound, "one"));
    let b = FsError::Io(failure(IoKind::NotFound, "two"));
    assert_eq!(a, b);
    assert_ne!(a, FsError::Io(failure(IoKind::Other, "one")));
    assert_ne!(
        FsError::ParentNotFound { path: "p".to_string() },
        FsError::DirectoryNotEmpty { path: "p".to_string() }
    );
    let e = FsError::CrossesFilesystem { src: "a".to_string(), dest: "b".to_string() };
    assert_eq!(e.message(), "Cannot rename across filesystems: a → b");
    assert_eq!(e, FsError::CrossesFilesystem { src: "a".to_string(), dest: "b".to_string() });
    let e = FsError::AlreadyExists { label: "File".to_string(), path: "x".to_string() };
    assert_eq!(e.message(), "File already exists: x");
}

#[test]
fn listing_hides_dot_entries_unless_asked() {
    assert!(!shows_entry(".hidden", false));
    assert!(shows_entry(".hidden", true));
    assert!(shows_entry("visible.txt", false));
    assert!(shows_entry("", false));
}

#[test]
fn dry_run_announcements() {
    assert_eq!(dry_run_create("notes", false), "[DRY-RUN] Would create file: notes");
    assert_eq!(dry_run_create("logs", true), "[DRY-RUN] Would create directory: logs");
    assert_eq!(dry_run_delete("/tmp/x", true), "[DRY-RUN] Would delete directory: /tmp/x");
    assert_eq!(dry_run_rename("a", "b"), "[DRY-RUN] Would rename: \n  from: a \n  to: b");
}

#[test]
fn find_refuses_a_pattern_too_large_to_compile() {
    let pattern = "a".repeat(300_000);
    let err = find_current_dir(vec![entry("a")], &pattern).unwrap_err();
    assert!(matches!(err, FsError::InvalidGlob { .. }));
}

#[test]
fn rename_refuses_equal_texts() {
    let err = rename_entry("notes.txt", "notes.txt").unwrap_err();
    assert_eq!(err.message(), "Source and destination paths are identical");
}

#[test]
fn io_kinds_stay_apart() {
    assert_ne!(
        FsError::Io(failure(IoKind::TimedOut, "t")),
        FsError::Io(failure(IoKind::Interrupted, "t"))
    );
}
