use i18n::cache::FileOutcome;
use i18n::config::Config;
use i18n::error::I18nError;
use i18n::i18n::{I18n, Step};
use i18n::interpolate::{ArgValue, Args};

fn config(locales: &[&str], fallback: Option<&str>, default: Option<&str>) -> Config {
    Config {
        directory: "./locales".to_string(),
        locales: locales.iter().map(|s| s.to_string()).collect(),
        fallback: fallback.map(|s| s.to_string()),
        default: default.map(|s| s.to_string()),
        preload: None,
    }
}

fn found_json(content: &str) -> FileOutcome {
    FileOutcome::Found { extension: "json".to_string(), content: content.to_string() }
}

fn load(t: &mut I18n, locale: &str, namespace: &str, content: &str) {
    t.cache.get_or_load(locale, namespace, found_json(content)).unwrap();
}

fn done(step: Step) -> String {
    match step {
        Step::Done(s) => s,
        Step::Fail(_) => panic!("lookup failed"),
        Step::Need { .. } => panic!("lookup asked for a file"),
    }
}

#[test]
fn round_trip_with_interpolation() {
    let mut t = I18n::new(config(&["en-US"], None, None)).unwrap();
    load(&mut t, "en-US", "common", "{\"greeting\": \"Hello {{name}}\"}");
    let mut args = Args::new();
    args.push("name".to_string(), ArgValue::Text("World".to_string()));
    let step = t.translate("en-US".to_string(), "common:greeting".to_string(), Some(&args));
    assert_eq!(done(step), "Hello World");
}

#[test]
fn absent_args_leave_template_unchanged() {
    let mut t = I18n::new(config(&["en-US"], None, None)).unwrap();
    load(&mut t, "en-US", "common", "{\"greeting\": \"Hello {{name}}\"}");
    let step = t.translate("en-US".to_string(), "common:greeting".to_string(), None);
    assert_eq!(done(step), "Hello {{name}}");
}

#[test]
fn args_lacking_the_name_render_marker() {
    let mut t = I18n::new(config(&["en-US"], None, None)).unwrap();
    load(&mut t, "en-US", "common", "{\"greeting\": \"Hi {{name}}\"}");
    let args = Args::new();
    let step = t.translate("en-US".to_string(), "common:greeting".to_string(), Some(&args));
    assert_eq!(done(step), "Hi ??");
}

#[test]
fn fallback_serves_missing_key() {
    let mut t = I18n::new(config(&["fr-FR", "en-US"], Some("en-US"), Some("fr-FR"))).unwrap();
    load(&mut t, "fr-FR", "common", "{\"greeting\": \"Bonjour\"}");
    load(&mut t, "en-US", "common", "{\"farewell\": \"Goodbye\", \"greeting\": \"Hello\"}");
    let step = t.translate("fr-FR".to_string(), "common:farewell".to_string(), None);
    assert_eq!(done(step), "Goodbye");
    // A key the requested locale has is served from it, not the fallback.
    let step = t.translate("fr-FR".to_string(), "common:greeting".to_string(), None);
    assert_eq!(done(step), "Bonjour");
}

#[test]
fn missing_at_both_ends_is_missing_translation() {
    let mut t = I18n::new(config(&["fr-FR", "en-US"], Some("en-US"), Some("fr-FR"))).unwrap();
    load(&mut t, "fr-FR", "common", "{\"greeting\": \"Bonjour\"}");
    load(&mut t, "en-US", "common", "{\"greeting\": \"Hello\"}");
    match t.translate("fr-FR".to_string(), "common:unknown".to_string(), None) {
        Step::Fail(I18nError::MissingTranslation { key }) => assert_eq!(key, "common:unknown"),
        _ => panic!("expected MissingTranslation"),
    }
}

#[test]
fn nested_keys_resolve_and_miss() {
    let mut t = I18n::new(config(&["en-US"], None, None)).unwrap();
    load(&mut t, "en-US", "ns", "{\"a\": {\"b\": {\"c\": \"leaf\"}}}");
    let step = t.translate("en-US".to_string(), "ns:a.b.c".to_string(), None);
    assert_eq!(done(step), "leaf");
    // The locale is its own fallback here, so the miss ends the chain.
    match t.translate("en-US".to_string(), "ns:a.b.missing".to_string(), None) {
        Step::Fail(I18nError::MissingTranslation { key }) => assert_eq!(key, "ns:a.b.missing"),
        _ => panic!("expected MissingTranslation"),
    }
}

#[test]
fn invalid_locale_and_key_fail_at_once() {
    let t = I18n::new(config(&["en-US"], None, None)).unwrap();
    assert!(matches!(
        t.translate("english".to_string(), "common:greeting".to_string(), None),
        Step::Fail(I18nError::InvalidLocale { .. })
    ));
    assert!(matches!(
        t.translate("en-US".to_string(), "nocolon".to_string(), None),
        Step::Fail(I18nError::InvalidKey { .. })
    ));
    assert!(matches!(
        t.translate("en-US".to_string(), ":field".to_string(), None),
        Step::Fail(I18nError::InvalidKey { .. })
    ));
}

#[test]
fn uncached_namespace_asks_the_host() {
    let t = I18n::new(config(&["en-US"], None, None)).unwrap();
    match t.translate("en-US".to_string(), "common:greeting".to_string(), None) {
        Step::Need { locale, namespace } => {
            assert_eq!(locale, "en-US");
            assert_eq!(namespace, "common");
        },
        _ => panic!("expected Need"),
    }
}

#[test]
fn uncached_fallback_asks_the_host() {
    let mut t = I18n::new(config(&["fr-FR", "en-US"], Some("en-US"), Some("fr-FR"))).unwrap();
    load(&mut t, "fr-FR", "common", "{\"greeting\": \"Bonjour\"}");
    match t.translate("fr-FR".to_string(), "common:farewell".to_string(), None) {
        Step::Need { locale, namespace } => {
            assert_eq!(locale, "en-US");
            assert_eq!(namespace, "common");
        },
        _ => panic!("expected Need for the fallback locale"),
    }
}

#[test]
fn t_uses_current_locale() {
    let mut t = I18n::new(config(&["fr-FR", "en-US"], Some("en-US"), Some("fr-FR"))).unwrap();
    load(&mut t, "fr-FR", "common", "{\"greeting\": \"Bonjour\"}");
    assert_eq!(done(t.t("common:greeting".to_string(), None)), "Bonjour");
    t.set_locale("en-US".to_string()).unwrap();
    load(&mut t, "en-US", "common", "{\"greeting\": \"Hello\"}");
    assert_eq!(done(t.t("common:greeting".to_string(), None)), "Hello");
}

#[test]
fn extra_key_segments_are_ignored() {
    let mut t = I18n::new(config(&["en-US"], None, None)).unwrap();
    load(&mut t, "en-US", "ns", "{\"a\": \"first\", \"b\": \"second\"}");
    assert_eq!(done(t.translate("en-US".to_string(), "ns:a:b".to_string(), None)), "first");
}

#[test]
fn construction_rejects_empty_locales() {
    assert!(matches!(
        I18n::new(config(&[], None, None)),
        Err(I18nError::EmptyLocales)
    ));
}

#[test]
fn construction_rejects_malformed_locales() {
    match I18n::new(config(&["en-US", "bad"], None, None)) {
        Err(I18nError::InvalidLocale { locale }) => assert_eq!(locale, "bad"),
        _ => panic!("expected InvalidLocale"),
    }
    match I18n::new(config(&["en-US"], Some("nope"), None)) {
        Err(I18nError::InvalidLocale { locale }) => assert_eq!(locale, "nope"),
        _ => panic!("expected InvalidLocale for the fallback"),
    }
    match I18n::new(config(&["en-US"], None, Some("x"))) {
        Err(I18nError::InvalidLocale { locale }) => assert_eq!(locale, "x"),
        _ => panic!("expected InvalidLocale for the default"),
    }
}

#[test]
fn construction_defaults_and_normalizes() {
    let mut cfg = config(&["fr-FR", "en-US"], None, None);
    cfg.directory = ".\\locales\\./app".to_string();
    let t = I18n::new(cfg).unwrap();
    assert_eq!(t.locale, "fr-FR");
    assert_eq!(t.fallback, "fr-FR");
    assert_eq!(t.directory, "./locales/app");
}

#[test]
fn setters_validate_and_assign() {
    let mut t = I18n::new(config(&["en-US"], None, None)).unwrap();
    t.set_fallback("es-ES".to_string()).unwrap();
    assert_eq!(t.fallback, "es-ES");
    assert!(matches!(
        t.set_fallback("bad".to_string()),
        Err(I18nError::InvalidLocale { .. })
    ));
    assert_eq!(t.fallback, "es-ES");
    t.set_locale("pt_BR".to_string()).unwrap();
    assert_eq!(t.locale, "pt_BR");
    assert!(matches!(
        t.set_locale("zz".to_string()),
        Err(I18nError::InvalidLocale { .. })
    ));
    assert_eq!(t.locale, "pt_BR");
    // Setting the value already held skips validation and succeeds.
    t.set_locale("pt_BR".to_string()).unwrap();
}

#[test]
fn should_load_filters_by_locale() {
    let t = I18n::new(config(&["en-US"], None, None)).unwrap();
    assert_eq!(
        t.should_load("locales/en-US/common.json", None),
        Some(("en-US".to_string(), "common".to_string()))
    );
    assert_eq!(t.should_load("locales/fr-FR/common.json", None), None);
    assert_eq!(
        t.should_load("locales/fr-FR/common.json", Some("fr-FR")),
        Some(("fr-FR".to_string(), "common".to_string()))
    );
    assert_eq!(t.should_load("locales/en-US/noextension", None), None);
    assert_eq!(t.should_load("locales/readme.json", None), None);
}
