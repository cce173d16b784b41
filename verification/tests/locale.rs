use eska_cli::locale::{resolve_locale, Locale, LocalizationError, LocalizationValue, number};

#[test]
fn normalizes_supported_locale_names() {
    for value in ["ru", "ru-RU", "ru_RU", "ru_RU.UTF-8"] {
        assert_eq!(Locale::from_locale_name(value), Some(Locale::RuRu));
    }
    for value in ["en", "en-US", "en_US", "en_US.UTF-8"] {
        assert_eq!(Locale::from_locale_name(value), Some(Locale::EnUs));
    }
}

#[test]
fn resolves_locale_in_priority_order() {
    assert_eq!(
        resolve_locale(Some("ru"), Some("en"), Some("en")),
        Locale::RuRu
    );
    assert_eq!(resolve_locale(None, Some("ru"), Some("en")), Locale::RuRu);
    assert_eq!(resolve_locale(None, None, Some("ru")), Locale::RuRu);
    assert_eq!(resolve_locale(None, None, Some("de-DE")), Locale::EnUs);
    assert_eq!(resolve_locale(None, None, None), Locale::EnUs);
}

#[test]
fn locale_names_ignore_modifiers_and_case() {
    assert_eq!(Locale::from_locale_name("RU_ru@euro"), Some(Locale::RuRu));
    assert_eq!(Locale::from_locale_name("EN"), Some(Locale::EnUs));
    assert_eq!(Locale::from_locale_name("en-GB"), None);
    assert_eq!(Locale::from_locale_name(""), None);
    assert_eq!(Locale::from_locale_name(".ru"), None);
}

#[test]
fn canonical_identifiers() {
    assert_eq!(Locale::RuRu.as_str(), "ru-RU");
    assert_eq!(Locale::EnUs.as_str(), "en-US");
    assert_eq!(Locale::default(), Locale::EnUs);
    for locale in [Locale::RuRu, Locale::EnUs] {
        assert_eq!(Locale::from_locale_name(locale.as_str()), Some(locale));
    }
}

#[test]
fn an_unsupported_first_choice_is_not_skipped() {
    assert_eq!(resolve_locale(Some("de"), Some("ru"), None), Locale::EnUs);
}

#[test]
fn counts_saturate_as_translation_numbers() {
    assert!(matches!(number(7), LocalizationValue::Number(7)));
    assert!(matches!(number(usize::MAX), LocalizationValue::Number(i64::MAX)));
    assert!(matches!(LocalizationValue::Text("x"), LocalizationValue::Text("x")));
}

#[test]
fn localization_errors_keep_their_message() {
    let error = LocalizationError::new("invalid en-US resource".to_owned());
    assert_eq!(error.message(), "invalid en-US resource");
}
