use muse::menus::clock;
use muse::text::{cells, clean, cut, panic_message, split_line};

#[test]
fn hostile_metadata_and_partial_wide_overwrites_are_safe() {
    assert_eq!(
        clean("가\u{1b}[31m사\u{1b}]52;c;secret\u{7}\u{202e}\n"),
        "가사"
    );
    assert_eq!(cells("가사 ABC"), 8);
    assert_eq!(cut("한글 ABC", 5), "한글 ");
    assert_eq!(cut("e\u{301}", 1), "é");
    assert_eq!(clean("कि 👨‍👩‍👧‍👦"), "कि 👨‍👩‍👧‍👦");
    assert_eq!(cut("👨‍👩‍👧‍👦abc", 2), "👨‍👩‍👧‍👦");
}

#[test]
fn wrapped_lyrics_keep_words_and_graphemes_intact() {
    assert_eq!(
        split_line("We leave the window open", 22),
        ("We leave the window".to_string(), "open".to_string())
    );
    assert_eq!(
        split_line("하나 둘 셋", 5),
        ("하나".to_string(), "둘 셋".to_string())
    );
    assert_eq!(
        split_line("👨‍👩‍👧‍👦 together", 2),
        ("👨‍👩‍👧‍👦".to_string(), "together".to_string())
    );
}

#[test]
fn caught_panics_keep_bounded_terminal_safe_diagnostics() {
    assert_eq!(
        panic_message(Some("invalid 가사\u{1b}[31m!\u{1b}]52;c;secret\u{7}\u{9b}2J\u{202e}\r\n")),
        "Interface failed (Rust panic): invalid 가사!"
    );
    let long = "가".repeat(513);
    assert_eq!(
        panic_message(Some(&long)),
        format!("Interface failed (Rust panic): {}…", "가".repeat(512))
    );
    assert_eq!(
        panic_message(None),
        "Interface failed (Rust panic): non-text panic payload"
    );
    assert_eq!(
        panic_message(Some("\u{1b}]52;c;secret\u{7}\n")),
        "Interface failed (Rust panic): no printable panic message"
    );
}

#[test]
fn cleaning_normalizes_and_drops_format_controls() {
    assert_eq!(clean("e\u{301}"), "é");
    assert_eq!(clean("a\u{200b}b\u{feff}c"), "abc");
    assert_eq!(clean("x\u{9b}31my"), "xy");
    assert_eq!(clean("p\u{90}secret\u{9c}q"), "pq");
    assert_eq!(cells(""), 0);
    assert_eq!(cut("abc", -3), "");
    assert_eq!(cut("abc", 0), "");
}

#[test]
fn clocks_show_minutes_and_seconds() {
    assert_eq!(clock(0), "00:00");
    assert_eq!(clock(61_999), "01:01");
    assert_eq!(clock(3_600_000), "60:00");
}

#[test]
fn lines_that_fit_are_not_split() {
    assert_eq!(
        split_line("short", 10),
        ("short".to_string(), "".to_string())
    );
}

#[test]
fn cleaned_metadata_holds_no_terminal_instructions() {
    let hostile = "a\u{1b}[31mred\u{1b}]0;title\u{7}b\u{9b}2Jc\u{202e}d\u{0}\u{85}e\u{1b}P+q\u{1b}\\f";
    let cleaned = clean(hostile);
    assert_eq!(cleaned, "aredbcdef");
    assert!(cleaned.chars().all(|c| !c.is_control()));
}

#[test]
fn controls_are_removed_before_normalization() {
    assert_eq!(clean("e\u{7}\u{301}"), "\u{e9}");
    assert_eq!(clean("e\u{1b}[0m\u{301}"), "\u{e9}");
}
