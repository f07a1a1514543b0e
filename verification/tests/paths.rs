use registry::path::{find_last_separator, get_parent_key_path, split_key_path, SEPARATOR};
use registry::RegistryError;

#[test]
fn separator_is_a_backslash() {
    assert_eq!(SEPARATOR, '\\');
}

#[test]
fn parent_is_what_stands_before_the_last_separator() {
    assert_eq!(get_parent_key_path("HKLM\\Software\\X").unwrap(), "HKLM\\Software");
    assert_eq!(get_parent_key_path("HKLM\\Software").unwrap(), "HKLM");
}

#[test]
fn path_without_separator_has_no_parent() {
    match get_parent_key_path("HKLM") {
        Err(RegistryError::InvalidKeyPath(path)) => assert_eq!(path, "HKLM"),
        other => panic!("unexpected: {:?}", other),
    }
    assert!(matches!(get_parent_key_path(""), Err(RegistryError::InvalidKeyPath(p)) if p.is_empty()));
}

#[test]
fn split_gives_parent_and_last_segment() {
    let (parent, leaf) = split_key_path("HKLM\\1\\2\\3").unwrap();
    assert_eq!(parent, "HKLM\\1\\2");
    assert_eq!(leaf, "3");
}

#[test]
fn split_at_a_trailing_separator_gives_an_empty_segment() {
    let (parent, leaf) = split_key_path("HKLM\\").unwrap();
    assert_eq!(parent, "HKLM");
    assert_eq!(leaf, "");
    let (parent, leaf) = split_key_path("\\").unwrap();
    assert_eq!(parent, "");
    assert_eq!(leaf, "");
}

#[test]
fn split_counts_characters_not_bytes() {
    let (parent, leaf) = split_key_path("HKCU\\Grüße\\日本語").unwrap();
    assert_eq!(parent, "HKCU\\Grüße");
    assert_eq!(leaf, "日本語");
    assert_eq!(find_last_separator("é\\é"), Some(1));
}

#[test]
fn last_separator_is_found_or_missing() {
    assert_eq!(find_last_separator("a\\b\\c"), Some(3));
    assert_eq!(find_last_separator("\\abc"), Some(0));
    assert_eq!(find_last_separator("abc"), None);
    assert_eq!(find_last_separator(""), None);
}
