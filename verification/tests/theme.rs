use muse::theme::{Ink, Palette, theme_index, theme_name};

fn entries(pairs: &[(&str, &str)]) -> Vec<(String, String)> {
    pairs
        .iter()
        .map(|(k, v)| (k.to_string(), v.to_string()))
        .collect()
}

#[test]
fn themes_share_tokens_and_keep_terminal_colors_unknown() {
    let colors = entries(&[
        ("background", "#fafafa"),
        ("text.secondary", "#7f7f7f"),
        ("accent", "#FF0080"),
    ]);
    let overrides = entries(&[("background", "terminal"), ("text.secondary", "terminal-dim")]);
    let opaque = Palette::new("Porcelain".into(), &colors, &overrides, false);
    assert_eq!(opaque.ink("background"), Ink::Rgb(250, 250, 250));
    assert_eq!(opaque.ink("accent"), Ink::Rgb(255, 0, 128));
    let transparent = Palette::new("Porcelain".into(), &colors, &overrides, true);
    assert_eq!(transparent.ink("background"), Ink::Default);
    assert_eq!(transparent.ink("text.secondary"), Ink::Dim);
    assert_eq!(transparent.ink("accent"), Ink::Rgb(255, 0, 128));
    assert_eq!(transparent.name, "Porcelain");
}

#[test]
fn theme_names_cycle_and_parse() {
    assert_eq!(theme_name(0), "porcelain");
    assert_eq!(theme_name(5), "porcelain");
    assert_eq!(theme_name(3), "midnight");
    assert_eq!(theme_index("ink"), Some(4));
    assert_eq!(theme_index("sepia"), None);
    assert_eq!(Ink::parse("#0a0B0c"), Ink::Rgb(10, 11, 12));
    assert_eq!(Ink::parse("terminal"), Ink::Default);
}
