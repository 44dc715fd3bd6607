use muse::i18n::Language;
use muse::preferences::{Preferences, ReadOutcome, Settings};
use muse::state::{Focus, Panel, Ui};

#[test]
fn preferences_round_trip_without_domain_state_and_preserve_corrupt_files() {
    let mut prefs = Preferences::open(Some(ReadOutcome::Missing));
    assert!(prefs.writable && prefs.warning.is_none());
    let mut ui = Ui {
        language: Language::English,
        theme: 3,
        transparent: true,
        right_open: false,
        ..Ui::default()
    };
    let settings = prefs.save_request(&ui).unwrap();
    assert!(prefs.saved(settings.clone(), Ok(())).is_ok());
    assert!(prefs.save_request(&ui).is_none());
    let restored = Preferences::open(Some(ReadOutcome::Read {
        length: 200,
        parsed: Ok(settings.clone()),
    }))
    .ui(Language::Korean);
    assert_eq!(restored.theme, 3);
    assert_eq!(restored.language, Language::English);
    assert!(restored.transparent && !restored.right_open);
    let mut old = settings.clone();
    old.language = None;
    let without_language = Preferences::open(Some(ReadOutcome::Read {
        length: 200,
        parsed: Ok(old),
    }));
    assert!(without_language.warning.is_none());
    assert_eq!(without_language.ui(Language::Korean).language, Language::Korean);
    let invalid = Preferences::open(Some(ReadOutcome::Read {
        length: 6,
        parsed: Err("expected value at line 1 column 1".into()),
    }));
    assert_eq!(
        invalid.warning.as_deref(),
        Some("설정을 읽을 수 없어 기본값을 사용합니다: expected value at line 1 column 1")
    );
    ui.theme = 2;
    assert!(invalid.save_request(&ui).is_none());
    let mut failing = Preferences::open(Some(ReadOutcome::Missing));
    let request = failing.save_request(&ui).unwrap();
    assert_eq!(
        failing.saved(request, Err("File exists (os error 17)".into())),
        Err("설정을 저장하지 못했습니다: File exists (os error 17)".to_string())
    );
    assert!(!failing.writable);
    assert!(failing.save_request(&ui).is_none());
}

#[test]
fn oversized_newer_or_unknown_files_are_rejected() {
    let too_big = Preferences::open(Some(ReadOutcome::Read {
        length: 8193,
        parsed: Ok(Settings::defaults()),
    }));
    assert_eq!(
        too_big.warning.as_deref(),
        Some("설정을 읽을 수 없어 기본값을 사용합니다: 설정 파일이 너무 큽니다")
    );
    let mut newer = Settings::defaults();
    newer.version = 2;
    let newer = Preferences::open(Some(ReadOutcome::Read {
        length: 100,
        parsed: Ok(newer),
    }));
    assert_eq!(
        newer.warning.as_deref(),
        Some("설정을 읽을 수 없어 기본값을 사용합니다: 지원하지 않는 설정입니다")
    );
    let mut unknown = Settings::defaults();
    unknown.theme = "sepia".into();
    assert!(Preferences::open(Some(ReadOutcome::Read {
        length: 100,
        parsed: Ok(unknown),
    }))
    .warning
    .is_some());
    let unreadable = Preferences::open(Some(ReadOutcome::Unreadable("Permission denied".into())));
    assert!(!unreadable.writable);
    let demo = Preferences::open(None);
    assert!(!demo.writable && demo.warning.is_none());
    let ui = demo.ui(Language::English);
    assert_eq!(ui.language, Language::English);
    assert!(ui.left_open && ui.right_open && ui.panel == Panel::Lyrics && ui.preferred == Focus::Nav);
}
