use muse::i18n::Language;
use muse::keys::{KeyCode, KeyPress, key_name};
use muse::options::Options;
use muse::state::Ui;

fn press(code: KeyCode) -> KeyPress {
    KeyPress {
        code,
        release: false,
        control: false,
        shift: false,
        alt_or_super: false,
    }
}

fn strings(args: &[&str]) -> Vec<String> {
    args.iter().map(|a| a.to_string()).collect()
}

#[test]
fn cli_and_terminal_keys_retain_intent() {
    let args = strings(&["--theme", "midnight", "--transparent", "--fps", "30", "--hide-right"]);
    let options = Options::parse(&args, Ui::default(), false).unwrap();
    assert_eq!((options.ui.theme, options.fps), (3, 30));
    assert!(options.ui.transparent && !options.ui.right_open);
    for args in [vec!["--theme"], vec!["--fps", "0"], vec!["--unknown"]] {
        assert!(Options::parse(&strings(&args), Ui::default(), false).is_err());
    }
    assert_eq!(key_name(press(KeyCode::Char('한'))).as_deref(), Some("한"));
    assert_eq!(
        key_name(KeyPress {
            control: true,
            ..press(KeyCode::Char('l'))
        })
        .as_deref(),
        Some("full_lyrics")
    );
    assert_eq!(
        key_name(KeyPress {
            shift: true,
            ..press(KeyCode::Tab)
        })
        .as_deref(),
        Some("backtab")
    );
    assert!(key_name(KeyPress {
        release: true,
        ..press(KeyCode::Char('q'))
    })
    .is_none());
}

#[test]
fn options_report_errors_in_the_interface_language() {
    let korean = Options::parse(&strings(&["--bogus"]), Ui::default(), false).unwrap_err();
    assert_eq!(korean, "알 수 없는 옵션: --bogus. --help로 사용법을 확인하세요");
    let english =
        Options::parse(&strings(&["--language", "en", "--bogus"]), Ui::default(), false).unwrap_err();
    assert_eq!(english, "Unknown option: --bogus. See --help for usage");
    // The language pairs are read before anything else.
    let early = Options::parse(&strings(&["--bogus", "--language", "en"]), Ui::default(), false)
        .unwrap_err();
    assert_eq!(early, "Unknown option: --bogus. See --help for usage");
    assert_eq!(
        Options::parse(&strings(&["--language", "fr"]), Ui::default(), false).unwrap_err(),
        "--language must be en or ko"
    );
    assert_eq!(
        Options::parse(&strings(&["--language"]), Ui::default(), false).unwrap_err(),
        "--language requires en or ko"
    );
    assert_eq!(
        Options::parse(&strings(&["--language", "en", "--fps", "24"]), Ui::default(), false)
            .unwrap_err(),
        "--fps must be 15, 30 or 60"
    );
}

#[test]
fn switches_and_rates_apply_in_order() {
    let args = strings(&[
        "--demo", "--help", "--plain-icons", "--nerd-icons", "--reduced-motion", "--hide-left",
        "--256-color", "--fps", "+015", "--language", "en", "--theme", "ink",
    ]);
    let options = Options::parse(&args, Ui::default(), false).unwrap();
    assert!(!options.ui.plain_icons && options.ui.reduced_motion && !options.ui.left_open);
    assert!(options.limited);
    assert_eq!(options.fps, 15);
    assert_eq!(options.ui.language, Language::English);
    assert_eq!(options.ui.theme, 4);
    let kept = Options::parse(&strings(&[]), Ui::default(), true).unwrap();
    assert!(kept.limited && kept.fps == 60);
    assert!(Options::parse(&strings(&["--fps", "-30"]), Ui::default(), false).is_err());
}
