use i18n::locale::{extract_locale, is_locale};

#[test]
fn valid_locale_tags_pass() {
    assert!(is_locale("en-US"));
    assert!(is_locale("en_US"));
    assert!(is_locale("pt_BR"));
    assert!(is_locale("es-ES"));
}

#[test]
fn invalid_locale_tags_fail() {
    assert!(!is_locale("english"));
    assert!(!is_locale("EN-us"));
    assert!(!is_locale("en-USA"));
    assert!(!is_locale("e-US"));
    assert!(!is_locale("en US"));
    assert!(!is_locale("en+US"));
    assert!(!is_locale(""));
    assert!(!is_locale("en-us"));
    assert!(!is_locale("EN-US"));
    assert!(!is_locale("e1-US"));
    assert!(!is_locale("en-U1"));
}

#[test]
fn extract_locale_finds_segment_in_path() {
    assert_eq!(extract_locale("locales/en-US/common.json").as_deref(), Some("en-US"));
    assert_eq!(extract_locale("no locale here").as_deref(), None);
}

#[test]
fn extract_locale_takes_leftmost_match() {
    assert_eq!(extract_locale("aa-AA/bb-BB").as_deref(), Some("aa-AA"));
}

#[test]
fn extract_locale_inside_longer_word() {
    // The segment match is unanchored, as the directory walk uses it.
    assert_eq!(extract_locale("xen-USy").as_deref(), Some("en-US"));
}
