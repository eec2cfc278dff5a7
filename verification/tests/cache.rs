use i18n::cache::{Cache, FileOutcome};
use i18n::config::Config;
use i18n::document::resolve;
use i18n::error::I18nError;
use i18n::i18n::{I18n, Step};

fn found_json(content: &str) -> FileOutcome {
    FileOutcome::Found { extension: "json".to_string(), content: content.to_string() }
}

fn translator() -> I18n {
    I18n::new(Config {
        directory: "./locales".to_string(),
        locales: vec!["en-US".to_string(), "fr-FR".to_string()],
        fallback: Some("en-US".to_string()),
        default: Some("en-US".to_string()),
        preload: None,
    })
    .unwrap()
}

#[test]
fn get_or_load_is_idempotent() {
    let mut c = Cache::new();
    let first = c.get_or_load("en-US", "common", found_json("{\"k\": \"one\"}")).unwrap();
    // The second call finds the key cached and performs no parse of what the
    // host hands it; even a changed source text does not replace the entry.
    let second = c.get_or_load("en-US", "common", found_json("{\"k\": \"two\"}")).unwrap();
    assert_eq!(resolve(&first, "k").as_deref(), Some("one"));
    assert_eq!(resolve(&second, "k").as_deref(), Some("one"));
    // A call that would need the disk but is already cached ignores even a
    // missing file.
    let third = c.get_or_load("en-US", "common", FileOutcome::Missing).unwrap();
    assert_eq!(resolve(&third, "k").as_deref(), Some("one"));
}

#[test]
fn load_failures_report_their_kind() {
    let mut c = Cache::new();
    match c.get_or_load("en-US", "common", FileOutcome::Missing) {
        Err(I18nError::NotFound { locale, namespace }) => {
            assert_eq!(locale, "en-US");
            assert_eq!(namespace, "common");
        },
        _ => panic!("expected NotFound"),
    }
    assert!(matches!(
        c.get_or_load("en-US", "common", FileOutcome::Unreadable),
        Err(I18nError::IoError { .. })
    ));
    assert!(matches!(
        c.get_or_load("en-US", "common", found_json("{oops")),
        Err(I18nError::ParseError { .. })
    ));
    // None of the failures left an entry behind.
    assert!(c.get("en-US", "common").is_none());
    assert!(c.is_empty());
}

#[test]
fn contains_and_is_empty_follow_loads() {
    let mut c = Cache::new();
    assert!(c.is_empty());
    assert!(!c.contains("en-US"));
    c.get_or_load("en-US", "common", found_json("{}")).unwrap();
    assert!(!c.is_empty());
    assert!(c.contains("en-US"));
    assert!(!c.contains("fr-FR"));
}

#[test]
fn invalidation_granularities() {
    let mut c = Cache::new();
    c.get_or_load("en-US", "common", found_json("{}")).unwrap();
    c.get_or_load("en-US", "emails", found_json("{}")).unwrap();
    c.get_or_load("fr-FR", "common", found_json("{}")).unwrap();
    c.invalidate_one("en-US", "common");
    assert!(c.get("en-US", "common").is_none());
    assert!(c.get("en-US", "emails").is_some());
    assert!(c.get("fr-FR", "common").is_some());
    c.invalidate("en-US");
    assert!(!c.contains("en-US"));
    assert!(c.contains("fr-FR"));
    c.invalidate_all();
    assert!(c.is_empty());
}

#[test]
fn reload_clears_and_next_lookup_rereads() {
    let mut t = translator();
    t.cache.get_or_load("en-US", "common", found_json("{\"k\": \"old\"}")).unwrap();
    match t.translate("en-US".to_string(), "common:k".to_string(), None) {
        Step::Done(s) => assert_eq!(s, "old"),
        _ => panic!("expected a hit"),
    }
    t.reload(None, None);
    assert!(!t.has("en-US"));
    // The next lookup cannot be served from memory: it asks for the file,
    // and the re-read content takes effect.
    match t.translate("en-US".to_string(), "common:k".to_string(), None) {
        Step::Need { locale, namespace } => {
            assert_eq!(locale, "en-US");
            assert_eq!(namespace, "common");
        },
        _ => panic!("expected Need after a full reload"),
    }
    t.cache.get_or_load("en-US", "common", found_json("{\"k\": \"new\"}")).unwrap();
    match t.translate("en-US".to_string(), "common:k".to_string(), None) {
        Step::Done(s) => assert_eq!(s, "new"),
        _ => panic!("expected a hit after reloading"),
    }
}

#[test]
fn reload_of_one_locale_keeps_others() {
    let mut t = translator();
    t.cache.get_or_load("en-US", "common", found_json("{}")).unwrap();
    t.cache.get_or_load("fr-FR", "common", found_json("{}")).unwrap();
    t.reload(Some("en-US"), None);
    assert!(!t.has("en-US"));
    assert!(t.has("fr-FR"));
}

#[test]
fn reload_of_one_entry_keeps_the_locale() {
    let mut t = translator();
    t.cache.get_or_load("en-US", "common", found_json("{}")).unwrap();
    t.cache.get_or_load("en-US", "emails", found_json("{}")).unwrap();
    t.reload(Some("en-US"), Some("common"));
    assert!(t.cache.get("en-US", "common").is_none());
    assert!(t.cache.get("en-US", "emails").is_some());
    assert!(t.has("en-US"));
}

#[test]
fn unsupported_extension_on_load() {
    let mut c = Cache::new();
    match c.get_or_load(
        "en-US",
        "common",
        FileOutcome::Found { extension: "ini".to_string(), content: "k=v".to_string() },
    ) {
        Err(I18nError::UnsupportedExtension { extension }) => assert_eq!(extension, "ini"),
        _ => panic!("expected UnsupportedExtension"),
    }
}
