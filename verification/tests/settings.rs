use muse::i18n::Language;
use muse::settings::Setting;
use muse::state::{Choice, Focus, Panel, Ui};

#[test]
fn settings_step_themes_cyclically_and_flip_switches() {
    let mut ui = Ui::default();
    Setting::Theme.apply(&mut ui, -1);
    assert_eq!(ui.theme, 4);
    Setting::Theme.apply(&mut ui, 1);
    assert_eq!(ui.theme, 0);
    Setting::Language.apply(&mut ui, 1);
    Setting::Background.apply(&mut ui, 1);
    Setting::Icons.apply(&mut ui, 1);
    Setting::Motion.apply(&mut ui, 1);
    assert_eq!(ui.language, Language::English);
    assert!(ui.transparent && ui.plain_icons && ui.reduced_motion);
    let effect = Setting::Navigation.apply(&mut ui, 1);
    assert!(!ui.left_open && !effect.leave_full_lyrics && !effect.reset_lyric_scroll);
    let effect = Setting::Navigation.apply(&mut ui, 1);
    assert!(ui.left_open && ui.preferred == Focus::Nav && !effect.leave_full_lyrics);
    let effect = Setting::SidePanel.apply(&mut ui, 1);
    assert!(!ui.right_open && !effect.leave_full_lyrics);
    let effect = Setting::SidePanel.apply(&mut ui, 1);
    assert!(ui.right_open && ui.preferred == Focus::Right && effect.leave_full_lyrics);
    let effect = Setting::SideContent.apply(&mut ui, 1);
    assert!(ui.panel == Panel::Queue && effect.reset_lyric_scroll);
}

#[test]
fn setting_rows_show_current_values_in_both_languages() {
    let mut ui = Ui::default();
    let row = Setting::Theme.row(&ui);
    assert_eq!((row.label.as_str(), row.detail.as_str()), ("테마", "porcelain"));
    assert!(!row.checked && matches!(row.choice, Choice::Setting(Setting::Theme)));
    let row = Setting::Motion.row(&ui);
    assert_eq!((row.label.as_str(), row.detail.as_str()), ("움직임 줄이기", "꺼짐"));
    ui.language = Language::English;
    ui.theme = 7;
    let row = Setting::Theme.row(&ui);
    assert_eq!((row.label.as_str(), row.detail.as_str()), ("Theme", "linen"));
    let row = Setting::SideContent.row(&ui);
    assert_eq!((row.label.as_str(), row.detail.as_str()), ("Panel content", "Lyrics"));
    let row = Setting::Language.row(&ui);
    assert_eq!(row.detail, "English");
    for index in 0..8 {
        let row = Setting::nth(index).unwrap().row(&ui);
        assert!(!row.label.chars().any(|c| ('가'..='힣').contains(&c)));
    }
    assert!(Setting::nth(8).is_none());
}
