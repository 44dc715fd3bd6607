use muse::i18n::{Language, catalog_entries};

#[test]
fn locales_translate_application_text_and_preserve_unknown_content() {
    assert_eq!(Language::from_locale("ko_KR.UTF-8"), Language::Korean);
    assert_eq!(Language::from_locale("ko-KR"), Language::Korean);
    assert_eq!(Language::from_locale("en_US.UTF-8"), Language::English);
    assert_eq!(Language::from_locale("C"), Language::English);
    assert!(Language::parse("fr").is_err());
    assert_eq!(Language::English.text("보관함"), "Library");
    assert_eq!(Language::Korean.text("보관함"), "보관함");
    assert_eq!(Language::English.text("낯선 제목"), "낯선 제목");
    assert_eq!(
        Language::English.message("설정을 저장하지 못했습니다: disk full"),
        "Could not save settings: disk full"
    );
    assert!(catalog_entries()
        .iter()
        .all(|(_, value)| !value.trim().is_empty()));
}

#[test]
fn language_names_and_units() {
    assert_eq!(Language::parse("ko"), Ok(Language::Korean));
    assert_eq!(Language::parse("en"), Ok(Language::English));
    assert_eq!(Language::Korean.message("낯선 문장"), "낯선 문장");
    assert_eq!(Language::English.message("낯선 문장: 보관함"), "낯선 문장: 보관함");
}
