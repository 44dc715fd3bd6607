//! Command-line options: language, theme, panels, icons, motion, frame rate and colors.
use crate::i18n::{Language, translated};
use crate::state::Ui;
use crate::text::{chars_of, join_chars, same_text, string_of};
use crate::theme::{THEME_COUNT, theme_index, theme_names};
use vstd::prelude::*;

verus! {

/// The interface state to start with, the frame rate and whether colors are limited to
/// the 256-color palette.
#[derive(Clone, Debug)]
pub struct Options {
    pub ui: Ui,
    pub fps: u32,
    pub limited: bool,
}

/// What `--language` accepts.
pub open spec fn language_named(value: Seq<char>) -> Result<Language, Seq<char>> {
    if value == "ko"@ {
        Ok(Language::Korean)
    } else if value == "en"@ {
        Ok(Language::English)
    } else {
        Err("--language must be en or ko"@)
    }
}

/// The language the `--language` pairs of `args` from `i` on leave, starting from
/// `language`; the first unknown value is an error.
pub open spec fn language_pass(args: Seq<String>, i: int, language: Language) -> Result<Language, Seq<char>>
    decreases args.len() - i,
{
    if i < 0 || i + 1 >= args.len() {
        Ok(language)
    } else if args[i]@ == "--language"@ {
        match language_named(args[i + 1]@) {
            Ok(l) => language_pass(args, i + 1, l),
            Err(e) => Err(e),
        }
    } else {
        language_pass(args, i + 1, language)
    }
}

/// Whether `s` is a run of decimal digits.
pub open spec fn all_digits(s: Seq<char>) -> bool {
    forall|k: int| 0 <= k < s.len() ==> '0' <= #[trigger] s[k] <= '9'
}

/// The value of a run of decimal digits.
pub open spec fn digits_value(s: Seq<char>) -> nat
    decreases s.len(),
{
    if s.len() == 0 {
        0
    } else {
        digits_value(s.drop_last()) * 10 + (s.last() as nat - '0' as nat) as nat
    }
}

/// What `str::parse::<u32>` accepts: an optional `+`, then decimal digits up to `u32::MAX`.
pub open spec fn unsigned_value(s: Seq<char>) -> Option<nat> {
    let digits = if s.len() > 0 && s[0] == '+' { s.drop_first() } else { s };
    if digits.len() > 0 && all_digits(digits) && digits_value(digits) <= u32::MAX {
        Some(digits_value(digits))
    } else {
        None
    }
}

/// The error for an unknown option.
pub open spec fn unknown_option(language: Language, arg: Seq<char>) -> Seq<char> {
    match language {
        Language::Korean => "알 수 없는 옵션: "@ + arg + ". --help로 사용법을 확인하세요"@,
        Language::English => "Unknown option: "@ + arg + ". See --help for usage"@,
    }
}

/// The options `args` from `i` on leave, starting from `o`.
pub open spec fn option_pass(args: Seq<String>, i: int, o: Options) -> Result<Options, Seq<char>>
    decreases args.len() - i,
{
    if i < 0 || i >= args.len() {
        Ok(o)
    } else {
        let arg = args[i]@;
        let next = i + 1 < args.len();
        if arg == "--language"@ {
            if !next {
                Err("--language requires en or ko"@)
            } else {
                match language_named(args[i + 1]@) {
                    Ok(l) => option_pass(args, i + 2, Options { ui: Ui { language: l, ..o.ui }, ..o }),
                    Err(e) => Err(e),
                }
            }
        } else if arg == "--help"@ || arg == "--demo"@ {
            option_pass(args, i + 1, o)
        } else if arg == "--theme"@ {
            if next && theme_names().contains(args[i + 1]@) {
                let t = choose|t: int| 0 <= t < THEME_COUNT && theme_names()[t] == args[i + 1]@;
                option_pass(args, i + 2, Options { ui: Ui { theme: t as usize, ..o.ui }, ..o })
            } else {
                Err(translated(o.ui.language, "테마는 porcelain, graphite, linen, midnight, ink 중 하나입니다"@))
            }
        } else if arg == "--fps"@ {
            match if next { unsigned_value(args[i + 1]@) } else { None } {
                Some(n) => if n == 15 || n == 30 || n == 60 {
                    option_pass(args, i + 2, Options { fps: n as u32, ..o })
                } else {
                    Err(translated(o.ui.language, "--fps는 15, 30, 60 중 하나입니다"@))
                },
                None => Err(translated(o.ui.language, "--fps는 15, 30, 60 중 하나입니다"@)),
            }
        } else if arg == "--transparent"@ || arg == "--opaque"@ {
            option_pass(args, i + 1, Options { ui: Ui { transparent: arg == "--transparent"@, ..o.ui }, ..o })
        } else if arg == "--hide-left"@ || arg == "--show-left"@ {
            option_pass(args, i + 1, Options { ui: Ui { left_open: arg == "--show-left"@, ..o.ui }, ..o })
        } else if arg == "--hide-right"@ || arg == "--show-right"@ {
            option_pass(args, i + 1, Options { ui: Ui { right_open: arg == "--show-right"@, ..o.ui }, ..o })
        } else if arg == "--plain-icons"@ || arg == "--nerd-icons"@ {
            option_pass(args, i + 1, Options { ui: Ui { plain_icons: arg == "--plain-icons"@, ..o.ui }, ..o })
        } else if arg == "--reduced-motion"@ || arg == "--motion"@ {
            option_pass(
                args,
                i + 1,
                Options { ui: Ui { reduced_motion: arg == "--reduced-motion"@, ..o.ui }, ..o },
            )
        } else if arg == "--256-color"@ || arg == "--true-color"@ {
            option_pass(args, i + 1, Options { limited: arg == "--256-color"@, ..o })
        } else {
            Err(unknown_option(o.ui.language, arg))
        }
    }
}

/// What parsing `args` gives, starting from `ui` and the detected color limit `limited`:
/// the `--language` pairs are checked and applied first, then every option in order.
pub open spec fn parsed_options(args: Seq<String>, ui: Ui, limited: bool) -> Result<Options, Seq<char>> {
    match language_pass(args, 0, ui.language) {
        Err(e) => Err(e),
        Ok(language) => option_pass(args, 0, Options { ui: Ui { language, ..ui }, fps: 60, limited }),
    }
}

/// Parses a frame rate as `str::parse::<u32>` does, giving `None` for what it rejects.
fn unsigned(text: &str) -> (value: Option<u32>)
    ensures
        match (value, unsigned_value(text@)) {
            (Some(v), Some(n)) => v == n,
            (None, None) => true,
            _ => false,
        },
{
    let chars = chars_of(text);
    let start: usize = if chars.len() > 0 && chars[0] == '+' {
        1
    } else {
        0
    };
    let ghost digits = chars@.skip(start as int);
    assert(digits =~= if chars@.len() > 0 && chars@[0] == '+' { chars@.drop_first() } else { chars@ });
    if start == chars.len() {
        return None;
    }
    let mut value: u64 = 0;
    let mut i: usize = start;
    assert(digits.take(0) =~= Seq::<char>::empty());
    while i < chars.len()
        invariant
            start <= i <= chars@.len(),
            chars@ == text@,
            digits == chars@.skip(start as int),
            digits == (if text@.len() > 0 && text@[0] == '+' { text@.drop_first() } else { text@ }),
            digits.len() > 0,
            all_digits(digits.take(i - start)),
            value == digits_value(digits.take(i - start)),
            value <= u32::MAX,
        decreases chars@.len() - i,
    {
        let c = chars[i];
        if c < '0' || c > '9' {
            assert(digits[i - start] == c);
            assert(!all_digits(digits));
            return None;
        }
        let ghost before = digits.take(i - start);
        let ghost after = digits.take(i - start + 1);
        assert(after.drop_last() =~= before);
        assert(after.last() == c);
        let next = value * 10 + (c as u32 - '0' as u32) as u64;
        assert(all_digits(after)) by {
            assert forall|k: int| 0 <= k < after.len() implies '0' <= #[trigger] after[k] <= '9' by {
                if k < before.len() {
                    assert(after[k] == before[k]);
                }
            }
        }
        if next > u32::MAX as u64 {
            proof {
                if all_digits(digits) {
                    lemma_digits_value_grows(digits, i - start + 1);
                }
            }
            return None;
        }
        value = next;
        i = i + 1;
    }
    assert(digits.take(digits.len() as int) =~= digits);
    Some(value as u32)
}

/// The value of a run of digits never shrinks as digits are added.
proof fn lemma_digits_value_grows(s: Seq<char>, n: int)
    requires
        0 <= n <= s.len(),
        all_digits(s),
    ensures
        digits_value(s.take(n)) <= digits_value(s),
    decreases s.len() - n,
{
    if n < s.len() {
        lemma_digits_value_grows(s, n + 1);
        assert(s.take(n + 1).drop_last() =~= s.take(n));
        assert('0' <= s[n] <= '9');
    } else {
        assert(s.take(n) =~= s);
    }
}

/// `prefix`, then `middle`, then `suffix`, as a string.
fn framed(prefix: &str, middle: &str, suffix: &str) -> (text: String)
    ensures
        text@ == prefix@ + middle@ + suffix@,
{
    let joined = join_chars(&join_chars(&chars_of(prefix), &chars_of(middle)), &chars_of(suffix));
    string_of(joined.as_slice())
}

/// `text` as an owned string.
fn owned(text: &str) -> (copy: String)
    ensures
        copy@ == text@,
{
    string_of(chars_of(text).as_slice())
}

impl Options {
    /// Applies the option at `args[i]` to `o`, giving the options and the index of the
    /// next option, or the error it raises.
    fn step(args: &[String], i: usize, o: Options) -> (stepped: Result<(Options, usize), String>)
        requires
            i < args@.len(),
        ensures
            match stepped {
                Ok((next, j)) => i < j <= args@.len() + 1 && option_pass(args@, i as int, o)
                    == option_pass(args@, j as int, next),
                Err(e) => option_pass(args@, i as int, o) == Err::<Options, Seq<char>>(e@),
            },
    {
        let count = args.len();
        let mut o = o;
        let arg = args[i].as_str();
        let next = i + 1 < count;
        if same_text(arg, "--language") {
            if !next {
                return Err(owned("--language requires en or ko"));
            }
            match Language::parse(args[i + 1].as_str()) {
                Ok(l) => {
                    o.ui.language = l;
                    Ok((o, i + 2))
                },
                Err(e) => Err(owned(e)),
            }
        } else if same_text(arg, "--help") || same_text(arg, "--demo") {
            Ok((o, i + 1))
        } else if same_text(arg, "--theme") {
            Options::theme_step(args, i, o)
        } else if same_text(arg, "--fps") {
            Options::fps_step(args, i, o)
        } else {
            Options::switch_step(args, i, o)
        }
    }

    fn theme_step(args: &[String], i: usize, o: Options) -> (stepped: Result<(Options, usize), String>)
        requires
            i < args@.len(),
            args@[i as int]@ == "--theme"@,
            args@[i as int]@ != "--language"@,
            args@[i as int]@ != "--help"@,
            args@[i as int]@ != "--demo"@,
        ensures
            match stepped {
                Ok((next, j)) => i < j <= args@.len() + 1 && option_pass(args@, i as int, o)
                    == option_pass(args@, j as int, next),
                Err(e) => option_pass(args@, i as int, o) == Err::<Options, Seq<char>>(e@),
            },
    {
        let count = args.len();
        let next = i + 1 < count;
        let mut o = o;
        let found = if next {
            theme_index(args[i + 1].as_str())
        } else {
            None
        };
        match found {
            Some(t) => {
                proof {
                    crate::theme::lemma_theme_names_distinct();
                    let c = choose|c: int| 0 <= c < THEME_COUNT && theme_names()[c] == args@[i + 1]@;
                    assert(theme_names()[t as int] == args@[i + 1]@);
                    assert(theme_names().contains(args@[i + 1]@));
                    assert(c == t);

                }
                let ghost before = o;
                o.ui.theme = t;
                assert(o == (Options { ui: Ui { theme: t, ..before.ui }, ..before }));
                assert(option_pass(args@, i as int, before) == option_pass(args@, i + 2, o));
                Ok((o, i + 2))
            },
            None => {
                proof {
                    if next {
                        assert(!theme_names().contains(args@[i + 1]@));
                    }
                }
                let shown = o.ui.language.text("테마는 porcelain, graphite, linen, midnight, ink 중 하나입니다");
                Err(owned(shown))
            },
        }
    }

    fn fps_step(args: &[String], i: usize, o: Options) -> (stepped: Result<(Options, usize), String>)
        requires
            i < args@.len(),
            args@[i as int]@ == "--fps"@,
            args@[i as int]@ != "--language"@,
            args@[i as int]@ != "--help"@,
            args@[i as int]@ != "--demo"@,
            args@[i as int]@ != "--theme"@,
        ensures
            match stepped {
                Ok((next, j)) => i < j <= args@.len() + 1 && option_pass(args@, i as int, o)
                    == option_pass(args@, j as int, next),
                Err(e) => option_pass(args@, i as int, o) == Err::<Options, Seq<char>>(e@),
            },
    {
        let count = args.len();
        let next = i + 1 < count;
        let mut o = o;
        let value = if next {
            unsigned(args[i + 1].as_str())
        } else {
            None
        };
        match value {
            Some(n) => {
                if n == 15 || n == 30 || n == 60 {
                    let ghost before = o;
                    o.fps = n;
                    assert(o == (Options { fps: n, ..before }));
                    assert(option_pass(args@, i as int, before) == option_pass(args@, i + 2, o));
                    Ok((o, i + 2))
                } else {
                    Err(owned(o.ui.language.text("--fps는 15, 30, 60 중 하나입니다")))
                }
            },
            None => Err(owned(o.ui.language.text("--fps는 15, 30, 60 중 하나입니다"))),
        }
    }

    fn switch_step(args: &[String], i: usize, o: Options) -> (stepped: Result<(Options, usize), String>)
        requires
            i < args@.len(),
            args@[i as int]@ != "--language"@,
            args@[i as int]@ != "--help"@,
            args@[i as int]@ != "--demo"@,
            args@[i as int]@ != "--theme"@,
            args@[i as int]@ != "--fps"@,
        ensures
            match stepped {
                Ok((next, j)) => i < j <= args@.len() + 1 && option_pass(args@, i as int, o)
                    == option_pass(args@, j as int, next),
                Err(e) => option_pass(args@, i as int, o) == Err::<Options, Seq<char>>(e@),
            },
    {
        let arg = args[i].as_str();
        if same_text(arg, "--transparent") || same_text(arg, "--opaque") {
            let mut o = o;
            o.ui.transparent = same_text(arg, "--transparent");
            Ok((o, i + 1))
        } else if same_text(arg, "--hide-left") || same_text(arg, "--show-left") {
            let mut o = o;
            o.ui.left_open = same_text(arg, "--show-left");
            Ok((o, i + 1))
        } else {
            Options::panel_step(args, i, o)
        }
    }

    fn panel_step(args: &[String], i: usize, o: Options) -> (stepped: Result<(Options, usize), String>)
        requires
            i < args@.len(),
            args@[i as int]@ != "--language"@,
            args@[i as int]@ != "--help"@,
            args@[i as int]@ != "--demo"@,
            args@[i as int]@ != "--theme"@,
            args@[i as int]@ != "--fps"@,
            args@[i as int]@ != "--transparent"@,
            args@[i as int]@ != "--opaque"@,
            args@[i as int]@ != "--hide-left"@,
            args@[i as int]@ != "--show-left"@,
        ensures
            match stepped {
                Ok((next, j)) => i < j <= args@.len() + 1 && option_pass(args@, i as int, o)
                    == option_pass(args@, j as int, next),
                Err(e) => option_pass(args@, i as int, o) == Err::<Options, Seq<char>>(e@),
            },
    {
        let arg = args[i].as_str();
        if same_text(arg, "--hide-right") || same_text(arg, "--show-right") {
            let mut o = o;
            o.ui.right_open = same_text(arg, "--show-right");
            Ok((o, i + 1))
        } else if same_text(arg, "--plain-icons") || same_text(arg, "--nerd-icons") {
            let mut o = o;
            o.ui.plain_icons = same_text(arg, "--plain-icons");
            Ok((o, i + 1))
        } else {
            Options::look_step(args, i, o)
        }
    }

    fn look_step(args: &[String], i: usize, o: Options) -> (stepped: Result<(Options, usize), String>)
        requires
            i < args@.len(),
            args@[i as int]@ != "--language"@,
            args@[i as int]@ != "--help"@,
            args@[i as int]@ != "--demo"@,
            args@[i as int]@ != "--theme"@,
            args@[i as int]@ != "--fps"@,
            args@[i as int]@ != "--transparent"@,
            args@[i as int]@ != "--opaque"@,
            args@[i as int]@ != "--hide-left"@,
            args@[i as int]@ != "--show-left"@,
            args@[i as int]@ != "--hide-right"@,
            args@[i as int]@ != "--show-right"@,
            args@[i as int]@ != "--plain-icons"@,
            args@[i as int]@ != "--nerd-icons"@,
        ensures
            match stepped {
                Ok((next, j)) => i < j <= args@.len() + 1 && option_pass(args@, i as int, o)
                    == option_pass(args@, j as int, next),
                Err(e) => option_pass(args@, i as int, o) == Err::<Options, Seq<char>>(e@),
            },
    {
        let arg = args[i].as_str();
        if same_text(arg, "--reduced-motion") || same_text(arg, "--motion") {
            let mut o = o;
            o.ui.reduced_motion = same_text(arg, "--reduced-motion");
            Ok((o, i + 1))
        } else if same_text(arg, "--256-color") || same_text(arg, "--true-color") {
            let mut o = o;
            o.limited = same_text(arg, "--256-color");
            Ok((o, i + 1))
        } else {
            Err(
                match o.ui.language {
                    Language::Korean => framed("알 수 없는 옵션: ", arg, ". --help로 사용법을 확인하세요"),
                    Language::English => framed("Unknown option: ", arg, ". See --help for usage"),
                },
            )
        }
    }

    /// Parses command-line `args` over the interface state `ui` (from the saved
    /// preferences) and the detected color limit `limited`.
    pub fn parse(args: &[String], ui: Ui, limited: bool) -> (options: Result<Options, String>)
        ensures
            match (options, parsed_options(args@, ui, limited)) {
                (Ok(o), Ok(expected)) => o == expected,
                (Err(e), Err(expected)) => e@ == expected,
                _ => false,
            },
    {
        let ghost start = ui;
        let count = args.len();
        let mut language = ui.language;
        let mut i: usize = 0;
        while i < count && i + 1 < count
            invariant
                i <= count,
                count == args@.len(),
                start == ui,
                language_pass(args@, 0, start.language) == language_pass(args@, i as int, language),
            decreases args@.len() - i,
        {
            if same_text(args[i].as_str(), "--language") {
                match Language::parse(args[i + 1].as_str()) {
                    Ok(l) => {
                        language = l;
                    },
                    Err(e) => {
                        return Err(owned(e));
                    },
                }
            }
            i = i + 1;
        }
        let mut o = Options { ui: Ui { language, ..ui }, fps: 60, limited };
        proof {
            reveal_strlit("--language must be en or ko");
        }
        let ghost first = o;
        assert(parsed_options(args@, start, limited) == option_pass(args@, 0, first));
        let mut i: usize = 0;
        while i < count
            invariant
                i <= count + 1,
                count == args@.len(),
                start == ui,
                parsed_options(args@, start, limited) == option_pass(args@, 0, first),
                option_pass(args@, 0, first) == option_pass(args@, i as int, o),
            decreases count + 1 - i,
        {
            match Options::step(args, i, o) {
                Ok((next, j)) => {
                    o = next;
                    i = j;
                },
                Err(e) => {
                    return Err(e);
                },
            }
        }
        Ok(o)
    }
}

} // verus!
