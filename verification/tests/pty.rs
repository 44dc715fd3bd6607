use muse::pty::{contains, native_pid, parse_i32};

#[test]
fn byte_search_finds_needles_anywhere() {
    assert!(contains(b"abc\x1b[?1049l", b"\x1b[?1049l"));
    assert!(contains(b"abc", b"a"));
    assert!(contains(b"abc", b"abc"));
    assert!(!contains(b"abc", b"abcd"));
    assert!(!contains(b"", b"a"));
    assert!(!contains(b"aab", b"ba"));
}

#[test]
fn child_pids_are_read_after_the_marker() {
    assert_eq!(native_pid(b"noise\r\nPTY_CHILD=4242\r\nmore"), Ok(4242));
    assert_eq!(native_pid(b"PTY_CHILD=  17 trailing"), Ok(17));
    assert_eq!(native_pid(b"PTY_CHILD=-5\n"), Ok(-5));
    assert_eq!(native_pid(b"no marker"), Err("Missing PTY child".to_string()));
    assert_eq!(native_pid(b"PTY_CHILD=   \n"), Err("Missing PTY pid".to_string()));
    assert_eq!(
        native_pid(b"PTY_CHILD=PTY_CHILD=9"),
        Err("Missing PTY pid".to_string())
    );
    assert_eq!(
        native_pid(b"PTY_CHILD=12x"),
        Err("invalid digit found in string".to_string())
    );
    assert_eq!(
        native_pid(b"PTY_CHILD=\xff7"),
        Err("invalid digit found in string".to_string())
    );
}

#[test]
fn integers_parse_as_std_does() {
    for text in ["0", "+12", "-12", "2147483647", "-2147483648", "007", "x", "", "+", "-", "2147483648", "-2147483649", "99999999999x", "1_0"] {
        let chars: Vec<char> = text.chars().collect();
        let expected = text.parse::<i32>().map_err(|e| e.to_string());
        assert_eq!(parse_i32(&chars), expected, "{text}");
    }
}
