//! Character-level text helpers, terminal-safe sanitizing and the Unicode
//! services (normalization, grapheme segmentation, cell width) the interface uses.
use unicode_normalization::UnicodeNormalization;
use unicode_segmentation::UnicodeSegmentation;
use unicode_width::UnicodeWidthStr;
use vstd::prelude::*;

verus! {

// ---------------------------------------------------------------------------
// Outside Unicode services
// ---------------------------------------------------------------------------

/// The NFC normalization of a character sequence, as `unicode-normalization` computes it.
pub uninterp spec fn nfc_of(text: Seq<char>) -> Seq<char>;

/// The extended grapheme clusters of a character sequence, as `unicode-segmentation` splits it.
pub uninterp spec fn graphemes_of(text: Seq<char>) -> Seq<Seq<char>>;

/// The terminal cell width of a character sequence, as `unicode-width` measures it.
pub uninterp spec fn width_of(text: Seq<char>) -> nat;

/// `UnicodeNormalization::nfc` collected into a string: the text in Normalization Form C.
/// Nothing is claimed of the normalization itself beyond naming it.
#[verifier::external_body]
fn nfc(text: &str) -> (normalized: String)
    ensures
        normalized@ == nfc_of(text@),
{
    text.nfc().collect()
}

/// `UnicodeSegmentation::graphemes(text, true)`: the extended grapheme clusters, each
/// copied into a string. The iterator yields consecutive non-empty slices
/// `text[start..next]` from the start to the end of the text, so the clusters are
/// non-empty and concatenate back to the text.
#[verifier::external_body]
pub(crate) fn graphemes(text: &str) -> (clusters: Vec<String>)
    ensures
        clusters@.map_values(|c: String| c@) == graphemes_of(text@),
        clusters@.map_values(|c: String| c@).flatten() == text@,
        forall|i: int| 0 <= i < clusters@.len() ==> #[trigger] clusters@[i]@.len() > 0,
{
    text.graphemes(true).map(String::from).collect()
}

/// `UnicodeWidthStr::width`: the number of terminal cells the text occupies.
#[verifier::external_body]
fn cell_width(text: &str) -> (width: usize)
    ensures
        width == width_of(text@),
{
    text.width()
}

/// The grapheme clusters of a character sequence, each as characters.
pub fn clusters_of(text: &Vec<char>) -> (parts: Vec<Vec<char>>)
    ensures
        parts@.map_values(|p: Vec<char>| p@) == graphemes_of(text@),
        graphemes_of(text@).flatten() == text@,
        forall|i: int| 0 <= i < parts@.len() ==> #[trigger] parts@[i]@.len() > 0,
{
    let joined = string_of(text.as_slice());
    let strings = graphemes(joined.as_str());
    let ghost views = strings@.map_values(|c: String| c@);
    let mut parts: Vec<Vec<char>> = Vec::new();
    for i in 0..strings.len()
        invariant
            views == strings@.map_values(|c: String| c@),
            forall|j: int| 0 <= j < strings@.len() ==> #[trigger] strings@[j]@.len() > 0,
            parts@.len() == i,
            forall|j: int| 0 <= j < i ==> #[trigger] parts@[j]@ == strings@[j]@,
    {
        parts.push(chars_of(strings[i].as_str()));
    }
    assert(parts@.map_values(|p: Vec<char>| p@) =~= views);
    parts
}

// ---------------------------------------------------------------------------
// Characters and strings
// ---------------------------------------------------------------------------

/// The characters of a string slice, in order.
pub fn chars_of(text: &str) -> (chars: Vec<char>)
    ensures
        chars@ == text@,
{
    let mut chars: Vec<char> = Vec::new();
    for c in it: text.chars()
        invariant
            chars@ == it.seq().take(it.index() as int),
            it.seq() == text@,
    {
        chars.push(c);
    }
    chars
}

/// `String::push`: appends one character to the end of the string.
#[verifier::external_body]
fn push_char(text: &mut String, c: char)
    ensures
        final(text)@ == old(text)@.push(c),
{
    text.push(c);
}

/// A string holding exactly the given characters.
pub fn string_of(chars: &[char]) -> (text: String)
    ensures
        text@ == chars@,
{
    let mut text = String::new();
    for i in 0..chars.len()
        invariant
            text@ == chars@.take(i as int),
    {
        push_char(&mut text, chars[i]);
        assert(chars@.take(i + 1) =~= chars@.take(i as int).push(chars@[i as int]));
    }
    assert(chars@.take(chars@.len() as int) =~= chars@);
    text
}

/// Whether two texts hold the same characters.
pub fn same_text(a: &str, b: &str) -> (same: bool)
    ensures
        same == (a@ == b@),
{
    let x = chars_of(a);
    let y = chars_of(b);
    if x.len() != y.len() {
        return false;
    }
    for i in 0..x.len()
        invariant
            x@ == a@,
            y@ == b@,
            x@.len() == y@.len(),
            forall|j: int| 0 <= j < i ==> x@[j] == y@[j],
    {
        if x[i] != y[i] {
            return false;
        }
    }
    assert(x@ =~= y@);
    true
}

/// The characters of `s` from `from` (inclusive) to `to` (exclusive).
pub fn slice_chars(s: &Vec<char>, from: usize, to: usize) -> (part: Vec<char>)
    requires
        from <= to <= s@.len(),
    ensures
        part@ == s@.subrange(from as int, to as int),
{
    let mut part: Vec<char> = Vec::new();
    for i in from..to
        invariant
            from <= i <= to <= s@.len(),
            part@ == s@.subrange(from as int, i as int),
    {
        part.push(s[i]);
        assert(s@.subrange(from as int, i + 1) =~= s@.subrange(from as int, i as int).push(s@[i as int]));
    }
    part
}

/// `a` followed by `b`.
pub fn join_chars(a: &Vec<char>, b: &Vec<char>) -> (joined: Vec<char>)
    ensures
        joined@ == a@ + b@,
{
    let mut joined = a.clone();
    for i in 0..b.len()
        invariant
            joined@ == a@ + b@.take(i as int),
    {
        joined.push(b[i]);
        assert(a@ + b@.take(i + 1) =~= (a@ + b@.take(i as int)).push(b@[i as int]));
    }
    assert(b@.take(b@.len() as int) =~= b@);
    joined
}

// ---------------------------------------------------------------------------
// Character classes
// ---------------------------------------------------------------------------

/// The Unicode general category Cc (control codes): U+0000..U+001F and U+007F..U+009F.
pub open spec fn is_control_spec(c: char) -> bool {
    (c as u32) <= 0x1f || (0x7f <= (c as u32) && (c as u32) <= 0x9f)
}

/// Whether `c` is a control code (`char::is_control`).
pub fn is_control(c: char) -> (r: bool)
    ensures
        r == is_control_spec(c),
{
    let n = c as u32;
    n <= 0x1f || (0x7f <= n && n <= 0x9f)
}

/// The Unicode White_Space property (`char::is_whitespace`).
pub open spec fn is_whitespace_spec(c: char) -> bool {
    let n = c as u32;
    ||| 0x09 <= n <= 0x0d
    ||| n == 0x20
    ||| n == 0x85
    ||| n == 0xa0
    ||| n == 0x1680
    ||| 0x2000 <= n <= 0x200a
    ||| n == 0x2028
    ||| n == 0x2029
    ||| n == 0x202f
    ||| n == 0x205f
    ||| n == 0x3000
}

/// Whether `c` is white space (`char::is_whitespace`).
pub fn is_whitespace(c: char) -> (r: bool)
    ensures
        r == is_whitespace_spec(c),
{
    let n = c as u32;
    (0x09 <= n && n <= 0x0d) || n == 0x20 || n == 0x85 || n == 0xa0 || n == 0x1680 || (0x2000
        <= n && n <= 0x200a) || n == 0x2028 || n == 0x2029 || n == 0x202f || n == 0x205f || n
        == 0x3000
}

/// Invisible formatting characters that could reorder or hide displayed text.
pub open spec fn is_hidden_format(c: char) -> bool {
    let n = c as u32;
    ||| n == 0xad
    ||| n == 0x61c
    ||| n == 0x200b
    ||| 0x200e <= n <= 0x200f
    ||| 0x2028 <= n <= 0x202e
    ||| 0x2060 <= n <= 0x206f
    ||| n == 0xfeff
}

// ---------------------------------------------------------------------------
// Terminal sanitizing
// ---------------------------------------------------------------------------

/// The escape-sequence state after reading `c` in state `state`:
/// 0 text, 1 after ESC, 2 inside CSI, 3 inside a string command (OSC, DCS, ...),
/// 4 after ESC inside a string command.
pub open spec fn escape_step(state: u8, c: char) -> u8 {
    let n = c as u32;
    if state == 0 {
        if n == 0x1b {
            1
        } else if n == 0x9b {
            2
        } else if n == 0x9d || n == 0x90 || n == 0x98 || n == 0x9e || n == 0x9f {
            3
        } else {
            0
        }
    } else if state == 1 {
        if c == '[' {
            2
        } else if c == ']' || c == 'P' || c == 'X' || c == '^' || c == '_' {
            3
        } else {
            0
        }
    } else if state == 2 {
        if 0x40 <= n <= 0x7e {
            0
        } else {
            2
        }
    } else if state == 3 {
        if n == 0x07 || n == 0x9c {
            0
        } else if n == 0x1b {
            4
        } else {
            3
        }
    } else {
        if c == '\\' {
            0
        } else {
            3
        }
    }
}

/// Whether `c`, read in state `state`, is shown: plain text that is neither a control
/// code nor a hidden formatting character.
pub open spec fn shown(state: u8, c: char) -> bool {
    state == 0 && (c as u32) != 0x1b && (c as u32) != 0x9b && !is_control_spec(c)
        && !is_hidden_format(c)
}

/// The escape state after reading all of `s` from plain text.
pub open spec fn escape_state(s: Seq<char>) -> u8
    decreases s.len(),
{
    if s.len() == 0 {
        0
    } else {
        escape_step(escape_state(s.drop_last()), s.last())
    }
}

/// The characters of `s` that are displayed once terminal instructions
/// (CSI, OSC, DCS and C1 controls) and hidden formatting characters are removed.
pub open spec fn strip_controls(s: Seq<char>) -> Seq<char>
    decreases s.len(),
{
    if s.len() == 0 {
        Seq::empty()
    } else {
        let before = strip_controls(s.drop_last());
        if shown(escape_state(s.drop_last()), s.last()) {
            before.push(s.last())
        } else {
            before
        }
    }
}

/// The terminal-safe form of a text: stripped of terminal controls, then NFC-normalized;
/// what normalization gives is screened once more for control and hidden formatting
/// characters.
pub open spec fn clean_spec(text: Seq<char>) -> Seq<char> {
    plain_chars(nfc_of(strip_controls(text)))
}

/// The characters of `s` that are neither control codes nor hidden formatting characters.
pub open spec fn plain_chars(s: Seq<char>) -> Seq<char>
    decreases s.len(),
{
    if s.len() == 0 {
        Seq::empty()
    } else if !is_control_spec(s.last()) && !is_hidden_format(s.last()) {
        plain_chars(s.drop_last()).push(s.last())
    } else {
        plain_chars(s.drop_last())
    }
}

/// Whether `c` is neither a control code nor a hidden formatting character.
pub open spec fn is_plain(c: char) -> bool {
    !is_control_spec(c) && !is_hidden_format(c)
}

/// Whether every character of `s` is plain.
pub open spec fn all_plain(s: Seq<char>) -> bool {
    forall|i: int| 0 <= i < s.len() ==> is_plain(#[trigger] s[i])
}

/// Whether `c` is a hidden formatting character (see `is_hidden_format`).
fn hidden_format(c: char) -> (hidden: bool)
    ensures
        hidden == is_hidden_format(c),
{
    let n = c as u32;
    n == 0xad || n == 0x61c || n == 0x200b || (0x200e <= n && n <= 0x200f) || (0x2028 <= n && n <= 0x202e) || (
    0x2060 <= n && n <= 0x206f) || n == 0xfeff
}

/// Metadata is text, never terminal instructions (CSI, OSC, DCS or C1 controls).
pub fn clean(text: &str) -> (result: String)
    ensures
        result@ == clean_spec(text@),
{
    let chars = chars_of(text);
    let mut kept: Vec<char> = Vec::new();
    let mut state: u8 = 0;
    for i in 0..chars.len()
        invariant
            chars@ == text@,
            state == escape_state(chars@.take(i as int)),
            kept@ == strip_controls(chars@.take(i as int)),
    {
        let c = chars[i];
        let n = c as u32;
        assert(chars@.take(i + 1).drop_last() =~= chars@.take(i as int));
        if state == 0 && n != 0x1b && n != 0x9b && !is_control(c) && !(n == 0xad || n == 0x61c
            || n == 0x200b || (0x200e <= n && n <= 0x200f) || (0x2028 <= n && n <= 0x202e) || (
        0x2060 <= n && n <= 0x206f) || n == 0xfeff) {
            kept.push(c);
        }
        state =
        if state == 0 {
            if n == 0x1b {
                1
            } else if n == 0x9b {
                2
            } else if n == 0x9d || n == 0x90 || n == 0x98 || n == 0x9e || n == 0x9f {
                3
            } else {
                0
            }
        } else if state == 1 {
            if c == '[' {
                2
            } else if c == ']' || c == 'P' || c == 'X' || c == '^' || c == '_' {
                3
            } else {
                0
            }
        } else if state == 2 {
            if 0x40 <= n && n <= 0x7e {
                0
            } else {
                2
            }
        } else if state == 3 {
            if n == 0x07 || n == 0x9c {
                0
            } else if n == 0x1b {
                4
            } else {
                3
            }
        } else {
            if c == '\\' {
                0
            } else {
                3
            }
        };
    }
    assert(chars@.take(chars@.len() as int) =~= chars@);
    let stripped = string_of(kept.as_slice());
    let normalized = nfc(stripped.as_str());
    let composed = chars_of(normalized.as_str());
    let mut plain: Vec<char> = Vec::new();
    for i in 0..composed.len()
        invariant
            composed@ == nfc_of(strip_controls(text@)),
            plain@ == plain_chars(composed@.take(i as int)),
    {
        let c = composed[i];
        assert(composed@.take(i + 1).drop_last() =~= composed@.take(i as int));
        if !is_control(c) && !hidden_format(c) {
            plain.push(c);
        }
    }
    assert(composed@.take(composed@.len() as int) =~= composed@);
    string_of(plain.as_slice())
}


/// The number of terminal cells the sanitized text occupies.
pub fn cells(text: &str) -> (width: i32)
    ensures
        width == (width_of(clean_spec(text@)) as i32),
{
    let cleaned = clean(text);
    cell_width(cleaned.as_str()) as i32
}

/// How many leading clusters of `parts` fit, one after another, into `budget` cells.
pub open spec fn fit_count(parts: Seq<Seq<char>>, budget: int) -> nat
    decreases parts.len(),
{
    if parts.len() == 0 {
        0
    } else if width_of(parts[0]) <= budget {
        1 + fit_count(parts.drop_first(), budget - width_of(parts[0]))
    } else {
        0
    }
}

/// The cells that `parts` take, one after another.
pub open spec fn widths_total(parts: Seq<Seq<char>>) -> int
    decreases parts.len(),
{
    if parts.len() == 0 {
        0
    } else {
        width_of(parts[0]) + widths_total(parts.drop_first())
    }
}

/// Clusters whose widths add up to at most `budget` all fit.
pub proof fn lemma_fit_all(parts: Seq<Seq<char>>, budget: int)
    requires
        widths_total(parts) <= budget,
    ensures
        fit_count(parts, budget) == parts.len(),
    decreases parts.len(),
{
    if parts.len() > 0 {
        lemma_widths_total_nonnegative(parts.drop_first());
        lemma_fit_all(parts.drop_first(), budget - width_of(parts[0]));
    }
}

/// Widths add up to no less than zero.
pub proof fn lemma_widths_total_nonnegative(parts: Seq<Seq<char>>)
    ensures
        widths_total(parts) >= 0,
    decreases parts.len(),
{
    if parts.len() > 0 {
        lemma_widths_total_nonnegative(parts.drop_first());
    }
}

/// The longest run of whole leading grapheme clusters of the sanitized text whose
/// widths add up to at most `width` cells (none when `width` is negative).
pub open spec fn cut_spec(text: Seq<char>, width: int) -> Seq<char> {
    let parts = graphemes_of(clean_spec(text));
    parts.take(fit_count(parts, if width < 0 { 0 } else { width }) as int).flatten()
}

/// Clips the sanitized text to at most `width` cells without splitting a grapheme cluster.
pub fn cut(text: &str, width: i32) -> (clipped: String)
    ensures
        clipped@ == cut_spec(text@, width as int),
        graphemes_of(clean_spec(text@)).flatten() == clean_spec(text@),
{
    let cleaned = clean(text);
    let parts = graphemes(cleaned.as_str());
    let ghost views = parts@.map_values(|c: String| c@);
    let ghost budget: int = if width < 0 { 0 } else { width as int };
    let mut remaining: u64 = if width < 0 { 0 } else { width as u64 };
    let mut kept: Vec<char> = Vec::new();
    let mut i: usize = 0;
    assert(views.skip(0) =~= views);
    assert(views.take(0) =~= Seq::<Seq<char>>::empty());
    while i < parts.len()
        invariant_except_break
            views == graphemes_of(clean_spec(text@)),
            views.len() == parts@.len(),
            forall|j: int| 0 <= j < parts@.len() ==> #[trigger] views[j] == parts@[j]@,
            0 <= i <= parts@.len(),
            fit_count(views, budget) == i + fit_count(views.skip(i as int), remaining as int),
            kept@ == views.take(i as int).flatten(),
        ensures
            kept@ == views.take(fit_count(views, budget) as int).flatten(),
        decreases parts@.len() - i,
    {
        let part = &parts[i];
        let w = cell_width(part.as_str());
        assert(views.skip(i as int).drop_first() =~= views.skip(i + 1));
        assert(views.skip(i as int)[0] == views[i as int]);
        if w as u64 > remaining {
            break;
        }
        remaining = remaining - w as u64;
        let piece = chars_of(part.as_str());
        kept = join_chars(&kept, &piece);
        proof {
            assert(views.take(i + 1) =~= views.take(i as int).push(views[i as int]));
            views.take(i as int).lemma_flatten_push(views[i as int]);
        }
        i = i + 1;
    }
    proof {
        if i == parts@.len() {
            assert(views.skip(i as int).len() == 0);
        }
    }
    string_of(kept.as_slice())
}

/// `s` without its trailing white space.
pub open spec fn trim_end_spec(s: Seq<char>) -> Seq<char>
    decreases s.len(),
{
    if s.len() > 0 && is_whitespace_spec(s.last()) {
        trim_end_spec(s.drop_last())
    } else {
        s
    }
}

/// `s` without its leading white space.
pub open spec fn trim_start_spec(s: Seq<char>) -> Seq<char>
    decreases s.len(),
{
    if s.len() > 0 && is_whitespace_spec(s[0]) {
        trim_start_spec(s.drop_first())
    } else {
        s
    }
}

/// Removes trailing white space.
pub fn trim_end_chars(s: &Vec<char>) -> (trimmed: Vec<char>)
    ensures
        trimmed@ == trim_end_spec(s@),
{
    let mut end = s.len();
    assert(s@.take(end as int) =~= s@);
    while end > 0 && is_whitespace(s[end - 1])
        invariant
            end <= s@.len(),
            trim_end_spec(s@) == trim_end_spec(s@.take(end as int)),
        decreases end,
    {
        assert(s@.take(end as int).drop_last() =~= s@.take(end - 1));
        end = end - 1;
    }
    slice_chars(s, 0, end)
}

/// Removes leading white space.
pub fn trim_start_chars(s: &Vec<char>) -> (trimmed: Vec<char>)
    ensures
        trimmed@ == trim_start_spec(s@),
{
    let mut start: usize = 0;
    assert(s@.skip(0) =~= s@);
    while start < s.len() && is_whitespace(s[start])
        invariant
            start <= s@.len(),
            trim_start_spec(s@) == trim_start_spec(s@.skip(start as int)),
        decreases s@.len() - start,
    {
        assert(s@.skip(start as int).drop_first() =~= s@.skip(start + 1));
        start = start + 1;
    }
    assert(s@.skip(start as int) =~= s@.subrange(start as int, s@.len() as int));
    slice_chars(s, start, s.len())
}

/// The index of the last white-space character of `s`, or -1 when there is none.
pub open spec fn last_space(s: Seq<char>) -> int
    decreases s.len(),
{
    if s.len() == 0 {
        -1
    } else if is_whitespace_spec(s.last()) {
        s.len() - 1
    } else {
        last_space(s.drop_last())
    }
}

/// Where a lyric line is wrapped: after as many cells as fit into `width`,
/// moved back to the last earlier space when that would split a word.
pub open spec fn wrap_point(line: Seq<char>, width: int) -> int {
    let fitted = cut_spec(line, width).len() as int;
    let end = if fitted < line.len() { fitted } else { line.len() as int };
    if end < line.len() && !is_whitespace_spec(line[end]) && last_space(line.take(end)) > 0 {
        last_space(line.take(end))
    } else {
        end
    }
}

/// Splits a (sanitized) lyric line into the part that fits into `width` cells and the
/// rest, keeping words and grapheme clusters whole and trimming the white space between.
pub fn split_line(line: &str, width: i32) -> (parts: (String, String))
    ensures
        parts.0@ == trim_end_spec(line@.take(wrap_point(line@, width as int))),
        parts.1@ == trim_start_spec(line@.skip(wrap_point(line@, width as int))),
{
    let chars = chars_of(line);
    let fitted = cut(line, width);
    let fitted_len = chars_of(fitted.as_str()).len();
    let mut end = if fitted_len < chars.len() { fitted_len } else { chars.len() };
    if end < chars.len() && !is_whitespace(chars[end]) {
        let mut k = end;
        while k > 0 && !is_whitespace(chars[k - 1])
            invariant
                k <= end < chars@.len(),
                last_space(chars@.take(end as int)) == last_space(chars@.take(k as int)),
            decreases k,
        {
            assert(chars@.take(k as int).drop_last() =~= chars@.take(k - 1));
            k = k - 1;
        }
        proof {
            if k > 0 {
                assert(chars@.take(k as int).last() == chars@[k - 1]);
            }
        }
        if k > 1 {
            end = k - 1;
        }
    }
    let head = slice_chars(&chars, 0, end);
    let tail = slice_chars(&chars, end, chars.len());
    assert(chars@.subrange(end as int, chars@.len() as int) =~= chars@.skip(end as int));
    assert(chars@.subrange(0, end as int) =~= chars@.take(end as int));
    let head = trim_end_chars(&head);
    let tail = trim_start_chars(&tail);
    (string_of(head.as_slice()), string_of(tail.as_slice()))
}

/// Whether every character of `s` is white space.
pub open spec fn all_whitespace(s: Seq<char>) -> bool {
    forall|i: int| 0 <= i < s.len() ==> is_whitespace_spec(#[trigger] s[i])
}

/// The number of characters of a panic message that are shown.
pub const PANIC_DETAIL_LIMIT: usize = 512;

/// The diagnostic for a caught panic whose payload held `message` (`None` for a
/// payload that is not text): at most 512 characters, sanitized, with an ellipsis
/// when truncated and an explicit note when nothing printable remains.
pub open spec fn panic_report(message: Option<Seq<char>>) -> Seq<char> {
    let text = match message {
        Some(m) => m,
        None => "non-text panic payload"@,
    };
    let head = if text.len() > 512 { text.take(512) } else { text };
    let detail = clean_spec(head);
    let shown = if all_whitespace(detail) { "no printable panic message"@ } else { detail };
    let marked = if text.len() > 512 { shown.push('…') } else { shown };
    "Interface failed (Rust panic): "@ + marked
}

/// Formats the diagnostic for a caught panic; `message` is its text payload, if any.
pub fn panic_message(message: Option<&str>) -> (report: String)
    ensures
        report@ == panic_report(
            match message {
                Some(m) => Some(m@),
                None => None,
            },
        ),
{
    let text = match message {
        Some(m) => chars_of(m),
        None => chars_of("non-text panic payload"),
    };
    let truncated = text.len() > PANIC_DETAIL_LIMIT;
    let head = if truncated { slice_chars(&text, 0, PANIC_DETAIL_LIMIT) } else { text.clone() };
    assert(truncated ==> head@ =~= text@.take(512));
    let head_text = string_of(head.as_slice());
    let cleaned = clean(head_text.as_str());
    let detail = chars_of(cleaned.as_str());
    let mut blank = true;
    for i in 0..detail.len()
        invariant
            detail@ == clean_spec(head@),
            blank == (forall|j: int| 0 <= j < i ==> is_whitespace_spec(#[trigger] detail@[j])),
    {
        if !is_whitespace(detail[i]) {
            blank = false;
        }
    }
    let mut shown = if blank { chars_of("no printable panic message") } else { detail };
    if truncated {
        shown.push('…');
    }
    let prefix = chars_of("Interface failed (Rust panic): ");
    let report = join_chars(&prefix, &shown);
    string_of(report.as_slice())
}

/// Screening leaves no control or hidden formatting character.
proof fn lemma_plain_chars(s: Seq<char>)
    ensures
        forall|i: int| 0 <= i < plain_chars(s).len() ==> {
            let c = #[trigger] plain_chars(s)[i];
            &&& !is_control_spec(c)
            &&& !is_hidden_format(c)
        },
    decreases s.len(),
{
    if s.len() > 0 {
        lemma_plain_chars(s.drop_last());
        let before = plain_chars(s.drop_last());
        let result = plain_chars(s);
        assert forall|i: int| 0 <= i < result.len() implies {
            let c = #[trigger] result[i];
            &&& !is_control_spec(c)
            &&& !is_hidden_format(c)
        } by {
            if i < before.len() {
                assert(result[i] == before[i]);
            }
        }
    }
}

/// Cleaned text holds no control code, no escape or CSI introducer and no hidden
/// formatting character: metadata can never reach the terminal as an instruction.
pub proof fn law_clean_text_has_no_terminal_controls(text: Seq<char>)
    ensures
        forall|i: int| 0 <= i < clean_spec(text).len() ==> {
            let c = #[trigger] clean_spec(text)[i];
            &&& !is_control_spec(c)
            &&& (c as u32) != 0x1b
            &&& (c as u32) != 0x9b
            &&& !is_hidden_format(c)
        },
{
    lemma_plain_chars(nfc_of(strip_controls(text)));
}

} // verus!
