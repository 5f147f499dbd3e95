use rnit::fs::checks::{ensure_path_exists, ensure_path_not_exists};
use rnit::fs::errors::{FsError, IoFailure, IoKind};
use rnit::fs::names::{
    check_parent_exists, extract_filename, is_hidden_filename, parent_to_check,
    validate_entry_name,
};
use rnit::fs::types::EntryMeta;
use rnit::fs::validate;

fn missing(message: &str) -> IoFailure {
    IoFailure { kind: IoKind::NotFound, message: message.to_string() }
}

#[test]
fn test_is_hidden_filename_comprehensive() {
    assert!(is_hidden_filename(".git"));
    assert!(is_hidden_filename("."));
    assert!(is_hidden_filename(".."));
    assert!(is_hidden_filename("..."));
    assert!(is_hidden_filename(".env.local"));
    assert!(is_hidden_filename(".hidden"));

    assert!(!is_hidden_filename("readme.md"));
    assert!(!is_hidden_filename("file.txt"));
    assert!(!is_hidden_filename("a.b.c"));
    assert!(!is_hidden_filename("normal"));
    assert!(!is_hidden_filename(""));
}

#[test]
fn test_extract_filename_success_absolute_and_relative() {
    assert_eq!(extract_filename("/usr/local/bin/tool").unwrap(), "tool");
    assert_eq!(extract_filename("./relative/path/config.yml").unwrap(), "config.yml");
}

#[test]
fn test_extract_filename_no_filename_component() {
    assert!(extract_filename("/path/to/directory/").is_err());
    assert!(extract_filename("/").is_err());
}

#[test]
fn extract_filename_reasons() {
    assert_eq!(
        extract_filename("dir/").unwrap_err(),
        FsError::InvalidName { reason: "Path ends with a directory seperator".to_string() }
    );
    assert_eq!(
        extract_filename("a\\").unwrap_err(),
        FsError::InvalidName { reason: "Path ends with a directory seperator".to_string() }
    );
    let expected = FsError::InvalidName {
        reason: "Path contains invalid UTF-8 or has no filename component".to_string(),
    };
    assert_eq!(extract_filename("..").unwrap_err(), expected);
    assert_eq!(extract_filename("a/..").unwrap_err(), expected);
    assert_eq!(extract_filename("").unwrap_err(), expected);
    assert_eq!(extract_filename("notes.txt").unwrap(), "notes.txt");
    assert_eq!(extract_filename("a/b/.").unwrap(), "b");
}

#[test]
fn test_validate_entry_name_valid() {
    assert!(validate_entry_name("normal_name").is_ok());
    assert!(validate_entry_name("archive.tar.gz").is_ok());
    assert!(validate_entry_name(&"a".repeat(255)).is_ok());
}

#[test]
fn test_validate_entry_name_empty_or_whitespace() {
    let err_empty = validate_entry_name("").unwrap_err();
    let err_ws = validate_entry_name("   \t\n").unwrap_err();

    let expected = FsError::InvalidName { reason: "Entry name cannot be empty".to_string() };
    assert_eq!(err_empty, expected);
    assert_eq!(err_ws, expected);
}

#[test]
fn test_validate_entry_name_reserved() {
    let err_dot = validate_entry_name(".").unwrap_err();
    let err_dotdot = validate_entry_name("..").unwrap_err();

    assert!(err_dot.message().contains("'.' is reserved"));
    assert!(err_dotdot.message().contains("'..' is reserved"));
}

#[test]
fn test_validate_entry_name_invalid_characters() {
    for (char, desc) in [('\0', "null"), ('/', "slash"), ('\\', "backslash")] {
        let name = format!("bad{}name", char);
        let err = validate_entry_name(&name).unwrap_err();
        assert!(err.message().contains("invalid characters"), "Failed for char {}", desc);
    }
}

#[test]
fn test_validate_entry_name_exceeds_max_length() {
    let long_name = "a".repeat(256);
    let err = validate_entry_name(&long_name).unwrap_err();
    assert!(err.message().contains("exceeds maximum length"));
}

#[test]
fn validate_entry_name_edges() {
    // Unicode whitespace counts as blank; a name is limited in bytes, not characters.
    assert!(validate_entry_name("\u{3000}\u{A0}").is_err());
    assert!(validate_entry_name(&"é".repeat(127)).is_ok());
    assert_eq!(
        validate_entry_name(&"é".repeat(128)).unwrap_err().message(),
        "Invalid entry name: Entry name exceeds maximum length (255 bytes)"
    );
    assert_eq!(
        validate_entry_name("..").unwrap_err().message(),
        "Invalid entry name: Entry name '..' is reserved"
    );
    assert_eq!(
        validate_entry_name("a/b").unwrap_err().message(),
        "Invalid entry name: Entry name contains invalid characters (\\0, /, \\)"
    );
    assert!(validate_entry_name("...").is_ok());
    assert!(validate_entry_name(" x ").is_ok());
}

#[test]
fn validate_entry_name_as_invalid_input() {
    assert!(validate::validate_entry_name("ok.txt").is_ok());
    let err = validate::validate_entry_name(".").unwrap_err();
    assert_eq!(err.kind, IoKind::InvalidInput);
    assert_eq!(err.message, "Entry name '.' is reserved");
    let err = validate::validate_entry_name("").unwrap_err();
    assert_eq!(err.message, "Entry name cannot be empty");
}

#[test]
fn test_validate_parent_exists_success_when_parent_exists() {
    let parent = parent_to_check("/tmp/some_dir/new_file.txt").unwrap();
    assert_eq!(parent, "/tmp/some_dir");
    assert!(check_parent_exists(&parent, true).is_ok());
}

#[test]
fn test_validate_parent_exists_fails_when_parent_missing() {
    let parent = parent_to_check("/tmp/some_dir/nonexistent_subdir/file.txt").unwrap();
    assert_eq!(parent, "/tmp/some_dir/nonexistent_subdir");
    let err = check_parent_exists(&parent, false).unwrap_err();
    assert_eq!(err, FsError::ParentNotFound { path: "/tmp/some_dir/nonexistent_subdir".to_string() });
}

#[test]
fn test_validate_parent_exists_skips_check_for_empty_parent() {
    assert!(parent_to_check("standalone.txt").is_none());
}

#[test]
fn test_validate_parent_exists_skips_check_for_root() {
    assert!(parent_to_check("/").is_none());
}

#[test]
fn test_validate_parent_exists_current_dir_reference() {
    assert!(parent_to_check(".").is_none());
}

#[test]
fn test_ensure_path_exists_success() {
    let meta = EntryMeta { len: 0, is_dir: false };
    let result = ensure_path_exists("/tmp/existing", "existing file", Ok(meta));
    assert!(result.is_ok());
    assert_eq!(result.unwrap(), meta);
}

#[test]
fn test_ensure_path_exists_not_found() {
    let path = "/nonexistent/deep/path/file.txt";
    let err = ensure_path_exists(path, "missing file", Err(missing("No such file or directory (os error 2)")))
        .unwrap_err();

    assert_eq!(
        err,
        FsError::NotFound { label: "missing file".to_string(), path: path.to_string() }
    );
    assert_eq!(err.message(), "missing file not found: /nonexistent/deep/path/file.txt");
}

#[test]
fn ensure_path_exists_other_failure() {
    let failure = IoFailure { kind: IoKind::PermissionDenied, message: "Permission denied (os error 13)".to_string() };
    let err = ensure_path_exists("/root/x", "Target", Err(failure)).unwrap_err();
    assert_eq!(err.message(), "Permission denied (os error 13)");
    assert!(matches!(err, FsError::Io(ref f) if f.kind == IoKind::PermissionDenied));
}

#[test]
fn test_ensure_path_not_exists_success() {
    let path = "/nonexistent/deep/path/file.txt";
    assert!(ensure_path_not_exists(path, "new file", Err(missing("gone"))).is_ok());
}

#[test]
fn test_ensure_path_not_exists_already_exists() {
    let path = "/tmp/duplicate.tmp";
    let err = ensure_path_not_exists(path, "duplicate", Ok(EntryMeta { len: 3, is_dir: false }))
        .unwrap_err();

    assert_eq!(
        err,
        FsError::AlreadyExists { label: "duplicate".to_string(), path: path.to_string() }
    );
}
