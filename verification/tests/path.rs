use i18n::path::PathExt;
use i18n::path::{get_extension, normalize};

#[test]
fn test_normalize_windows_path() {
    let normalized_path = "C:\\Users\\username\\file.txt".normalize();
    assert_eq!(normalized_path, "C:/Users/username/file.txt");
}

#[test]
fn test_normalize_unix_path() {
    let normalized_path = "/Users/username/file.txt".normalize();
    assert_eq!(normalized_path, "/Users/username/file.txt");
}

#[test]
fn test_normalize_path_with_dot_unix() {
    let normalized_path = "/./Users/username/./file.txt".normalize();
    assert_eq!(normalized_path, "/Users/username/file.txt");
}

#[test]
fn test_get_extension() {
    let extension = "file.txt".get_extension();
    assert_eq!(extension, "txt");
}

#[test]
fn test_get_extension_no_extension() {
    let extension = "file".get_extension();
    assert_eq!(extension, "");
}

#[test]
fn test_get_extension_multiple_dots() {
    let extension = "file.txt.gz".get_extension();
    assert_eq!(extension, "gz");
}

#[test]
fn test_get_extension_ignores_directory_dots() {
    assert_eq!(get_extension("dir.d/file"), "");
    assert_eq!(get_extension("dir.d/file.json"), "json");
}

#[test]
fn test_get_extension_leading_dot_name() {
    assert_eq!(get_extension(".gitignore"), "");
}

#[test]
fn test_normalize_does_not_rescan_replacements() {
    // The second pass never rescans what it already emitted, exactly like a
    // single left-to-right `str::replace`.
    assert_eq!(normalize("/././"), "/./");
}

#[test]
fn test_strip_extension() {
    assert_eq!(i18n::path::strip_extension("dir/en-US/common.json").as_deref(), Some("dir/en-US/common"));
    assert_eq!(i18n::path::strip_extension("archive.tar.gz").as_deref(), Some("archive.tar"));
    assert_eq!(i18n::path::strip_extension("noext"), None);
    assert_eq!(i18n::path::strip_extension("trailing."), None);
}
