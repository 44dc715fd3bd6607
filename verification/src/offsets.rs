//! The lyrics timing field: a number of seconds typed as text, such as `-1.5`.
use crate::menus::{decimal, decimal_chars, digit, digit_char};
use crate::text::{join_chars, slice_chars, string_of};
use vstd::prelude::*;

verus! {

/// The largest lyrics timing offset, in milliseconds either way.
pub const OFFSET_LIMIT_MS: i64 = 30000;

/// What the timing field holds.
#[derive(Debug, PartialEq, Eq, Structural)]
pub enum OffsetInput {
    /// A number of seconds within the limit, as whole milliseconds toward zero.
    Millis(i64),
    /// A number of seconds beyond the limit, infinite, or not a number.
    OutOfRange,
    /// Text that is not a number.
    Invalid,
}

/// Whether `c` is an ASCII digit.
pub open spec fn is_digit(c: char) -> bool {
    '0' <= c <= '9'
}

/// Whether every character of `text` is an ASCII digit.
pub open spec fn all_digits(text: Seq<char>) -> bool {
    forall|i: int| 0 <= i < text.len() ==> is_digit(#[trigger] text[i])
}

/// The value of the decimal digits `text`.
pub open spec fn digits_value(text: Seq<char>) -> nat
    decreases text.len(),
{
    if text.len() == 0 {
        0
    } else {
        digits_value(text.drop_last()) * 10 + ((text.last() as u32) - ('0' as u32)) as nat
    }
}

/// `text` without a leading sign.
pub open spec fn unsigned(text: Seq<char>) -> Seq<char> {
    if text.len() > 0 && (text[0] == '-' || text[0] == '+') {
        text.drop_first()
    } else {
        text
    }
}

/// Whether `text` spells the lower-case `word` in any ASCII case.
pub open spec fn folds(text: Seq<char>, word: Seq<char>) -> bool {
    &&& text.len() == word.len()
    &&& forall|i: int|
        0 <= i < text.len() ==> (#[trigger] text[i] == word[i] || ('a' <= word[i] <= 'z' && (text[i] as u32) + 32
            == word[i] as u32))
}

/// Whether `text` names an infinite or undefined number, in any case: `inf`,
/// `infinity` or `nan`.
pub open spec fn names_non_finite(text: Seq<char>) -> bool {
    folds(text, "inf"@) || folds(text, "infinity"@) || folds(text, "nan"@)
}

/// The position of the first decimal point in `text`, if any.
pub open spec fn point(text: Seq<char>) -> Option<int>
    decreases text.len(),
{
    if text.len() == 0 {
        None
    } else {
        match point(text.drop_last()) {
            Some(p) => Some(p),
            None => if text.last() == '.' {
                Some(text.len() - 1)
            } else {
                None
            },
        }
    }
}

/// The digits before the decimal point.
pub open spec fn whole_part(text: Seq<char>) -> Seq<char> {
    match point(text) {
        Some(p) => text.take(p),
        None => text,
    }
}

/// The digits after the decimal point.
pub open spec fn fraction_part(text: Seq<char>) -> Seq<char> {
    match point(text) {
        Some(p) => text.skip(p + 1),
        None => Seq::empty(),
    }
}

/// The first three digits of a fraction, padded with zeros: its whole milliseconds.
pub open spec fn millis_of(fraction: Seq<char>) -> nat {
    let padded = fraction + "000"@;
    digits_value(padded.take(3))
}

/// What the timing field `text` holds: a decimal number of seconds, with an optional
/// sign, digits and at most one decimal point (at least one digit in all); a number
/// within 30 seconds either way gives its whole milliseconds toward zero.
pub open spec fn offset_input(text: Seq<char>) -> OffsetInput {
    let body = unsigned(text);
    let negative = text.len() > 0 && text[0] == '-';
    if names_non_finite(body) {
        OffsetInput::OutOfRange
    } else {
        let whole = whole_part(body);
        let fraction = fraction_part(body);
        if !all_digits(whole) || !all_digits(fraction) || (whole.len() == 0 && fraction.len() == 0) {
            OffsetInput::Invalid
        } else if digits_value(whole) > 30 || (digits_value(whole) == 30 && exists|i: int|
            0 <= i < fraction.len() && fraction[i] != '0') {
            OffsetInput::OutOfRange
        } else {
            let magnitude = digits_value(whole) * 1000 + millis_of(fraction);
            OffsetInput::Millis((if negative { -magnitude } else { magnitude as int }) as i64)
        }
    }
}

proof fn lemma_digits_push(text: Seq<char>, c: char)
    ensures
        digits_value(text.push(c)) == digits_value(text) * 10 + ((c as u32) - ('0' as u32)) as nat,
{
    assert(text.push(c).drop_last() =~= text);
}

/// Once a prefix of `text` has a decimal point, it is the first of `text`.
proof fn lemma_point_prefix(text: Seq<char>, k: int)
    requires
        0 <= k <= text.len(),
        point(text.take(k)) is Some,
    ensures
        point(text) == point(text.take(k)),
    decreases text.len(),
{
    if k < text.len() {
        assert(text.drop_last().take(k) =~= text.take(k));
        lemma_point_prefix(text.drop_last(), k);
    } else {
        assert(text.take(k) =~= text);
    }
}

/// Where a prefix of `text` has no decimal point and the next character is one, that is
/// the first.
proof fn lemma_point_found(text: Seq<char>, i: int)
    requires
        0 <= i < text.len(),
        point(text.take(i)) is None,
        text[i] == '.',
    ensures
        point(text) == Some(i),
{
    assert(text.take(i + 1).drop_last() =~= text.take(i));
    lemma_point_prefix(text, i + 1);
}

/// The value of the digits `text`, or `cap` if it is larger.
fn capped_value(text: &[char], cap: u64) -> (value: u64)
    requires
        all_digits(text@),
        cap < u64::MAX / 10 - 10,
    ensures
        value == if digits_value(text@) < cap { digits_value(text@) } else { cap as nat },
{
    let mut value: u64 = 0;
    let mut i: usize = 0;
    assert(text@.take(0) =~= Seq::<char>::empty());
    while i < text.len()
        invariant
            i <= text@.len(),
            all_digits(text@),
            cap < u64::MAX / 10 - 10,
            value == if digits_value(text@.take(i as int)) < cap {
                digits_value(text@.take(i as int))
            } else {
                cap as nat
            },
        decreases text@.len() - i,
    {
        let c = text[i];
        let d = (c as u32 - '0' as u32) as u64;
        proof {
            assert(is_digit(text@[i as int]));
            assert(text@.take(i + 1) =~= text@.take(i as int).push(c));
            lemma_digits_push(text@.take(i as int), c);
        }
        value = if value >= cap {
            cap
        } else if value * 10 + d >= cap {
            cap
        } else {
            value * 10 + d
        };
        i = i + 1;
    }
    assert(text@.take(text@.len() as int) =~= text@);
    value
}

/// Whether every character of `text` is an ASCII digit.
fn digits_only(text: &[char]) -> (only: bool)
    ensures
        only == all_digits(text@),
{
    for i in 0..text.len()
        invariant
            forall|j: int| 0 <= j < i ==> is_digit(#[trigger] text@[j]),
    {
        if !('0' <= text[i] && text[i] <= '9') {
            assert(!is_digit(text@[i as int]));
            return false;
        }
    }
    true
}

/// Whether `text` holds a character other than `0`.
fn any_nonzero(text: &[char]) -> (found: bool)
    ensures
        found == exists|i: int| 0 <= i < text@.len() && text@[i] != '0',
{
    for i in 0..text.len()
        invariant
            forall|j: int| 0 <= j < i ==> text@[j] == '0',
    {
        if text[i] != '0' {
            return true;
        }
    }
    false
}

/// Whether `text` spells the lower-case `word` in any ASCII case.
fn folds_to(text: &[char], word: &str) -> (same: bool)
    ensures
        same == folds(text@, word@),
{
    let target: Vec<char> = crate::text::chars_of(word);
    if text.len() != target.len() {
        return false;
    }
    for i in 0..text.len()
        invariant
            text@.len() == target@.len(),
            target@ == word@,
            forall|j: int|
                0 <= j < i ==> (#[trigger] text@[j] == target@[j] || ('a' <= target@[j] <= 'z' && (text@[j] as u32)
                    + 32 == target@[j] as u32)),
    {
        let c = text[i];
        let t = target[i];
        let same = c == t || ('a' <= t && t <= 'z' && (t as u32) - 32 == c as u32);
        if !same {
            return false;
        }
    }
    true
}

/// The digits of `body` before and after its first decimal point.
fn split_point(body: &Vec<char>) -> (parts: (Vec<char>, Vec<char>))
    ensures
        parts.0@ == whole_part(body@),
        parts.1@ == fraction_part(body@),
{
    let mut p: usize = 0;
    while p < body.len() && body[p] != '.'
        invariant
            p <= body@.len(),
            point(body@.take(p as int)) is None,
        decreases body@.len() - p,
    {
        assert(body@.take(p + 1).drop_last() =~= body@.take(p as int));
        p = p + 1;
    }
    if p < body.len() {
        proof {
            lemma_point_found(body@, p as int);
        }
        let parts = (slice_chars(body, 0, p), slice_chars(body, p + 1, body.len()));
        assert(body@.take(p as int) =~= body@.subrange(0, p as int));
        assert(body@.skip(p + 1) =~= body@.subrange(p + 1, body@.len() as int));
        parts
    } else {
        assert(body@.take(p as int) =~= body@);
        let parts = (slice_chars(body, 0, p), Vec::new());
        assert(parts.1@ =~= Seq::<char>::empty());
        assert(body@.subrange(0, p as int) =~= body@);
        parts
    }
}

/// The whole milliseconds of the decimal fraction `fraction`.
fn fraction_millis(fraction: &Vec<char>) -> (millis: u64)
    requires
        all_digits(fraction@),
    ensures
        millis == millis_of(fraction@),
        millis < 1000,
{
    let mut padded: Vec<char> = Vec::new();
    let mut k: usize = 0;
    proof {
        reveal_strlit("000");
    }
    while k < 3
        invariant
            k <= 3,
            padded@ == (fraction@ + "000"@).take(k as int),
            "000"@ == seq!['0', '0', '0'],
        decreases 3 - k,
    {
        let c = if k < fraction.len() { fraction[k] } else { '0' };
        assert((fraction@ + "000"@).take(k + 1) =~= (fraction@ + "000"@).take(k as int).push(c));
        padded.push(c);
        k = k + 1;
    }
    assert(all_digits(padded@)) by {
        assert forall|j: int| 0 <= j < padded@.len() implies is_digit(#[trigger] padded@[j]) by {
            if j < fraction@.len() {
                assert(padded@[j] == fraction@[j]);
            } else {
                assert(padded@[j] == '0');
            }
        }
    }
    proof {
        assert(padded@.len() == 3);
        lemma_digits_bounded(padded@);
        assert(pow10(3) == 1000) by {
            reveal_with_fuel(pow10, 4);
        }
    }
    capped_value(padded.as_slice(), 1000)
}

/// Reads the timing field `text` (see `offset_input`).
pub fn read_offset(text: &Vec<char>) -> (input: OffsetInput)
    ensures
        input == offset_input(text@),
{
    let negative = text.len() > 0 && text[0] == '-';
    let start: usize = if text.len() > 0 && (text[0] == '-' || text[0] == '+') {
        1
    } else {
        0
    };
    let body = slice_chars(text, start, text.len());
    assert(body@ == unsigned(text@)) by {
        if start == 1 {
            assert(text@.drop_first() =~= text@.subrange(1, text@.len() as int));
        } else {
            assert(text@ =~= text@.subrange(0, text@.len() as int));
        }
    }
    if folds_to(body.as_slice(), "inf") || folds_to(body.as_slice(), "infinity") || folds_to(body.as_slice(), "nan") {
        return OffsetInput::OutOfRange;
    }
    let (whole, fraction) = split_point(&body);
    if !digits_only(whole.as_slice()) || !digits_only(fraction.as_slice()) || (whole.len() == 0 && fraction.len() == 0) {
        return OffsetInput::Invalid;
    }
    let seconds = capped_value(whole.as_slice(), 31);
    if seconds > 30 || (seconds == 30 && any_nonzero(fraction.as_slice())) {
        return OffsetInput::OutOfRange;
    }
    let millis = fraction_millis(&fraction);
    let magnitude: i64 = (seconds * 1000 + millis) as i64;
    OffsetInput::Millis(if negative { -magnitude } else { magnitude })
}

/// The value of digits is below ten to the power of their count.
proof fn lemma_digits_bounded(text: Seq<char>)
    requires
        all_digits(text),
    ensures
        digits_value(text) < pow10(text.len()),
    decreases text.len(),
{
    if text.len() > 0 {
        let rest = text.drop_last();
        assert forall|j: int| 0 <= j < rest.len() implies is_digit(#[trigger] rest[j]) by {
            assert(rest[j] == text[j]);
        }
        lemma_digits_bounded(rest);
        assert(is_digit(text[text.len() - 1]));
    }
}

/// `10` to the power `n`.
pub open spec fn pow10(n: nat) -> nat
    decreases n,
{
    if n == 0 {
        1
    } else {
        10 * pow10((n - 1) as nat)
    }
}

/// The digits after the decimal point of `millis` thousandths, without trailing zeros
/// (none for a whole number).
pub open spec fn thousandths(millis: nat) -> Seq<char> {
    let d1 = millis / 100;
    let d2 = (millis / 10) % 10;
    let d3 = millis % 10;
    if millis == 0 {
        Seq::empty()
    } else if d3 != 0 {
        seq![digit(d1), digit(d2), digit(d3)]
    } else if d2 != 0 {
        seq![digit(d1), digit(d2)]
    } else {
        seq![digit(d1)]
    }
}

/// A timing of `ms` milliseconds written in seconds, as the timing field shows it: an
/// optional minus sign, the whole seconds, and the fraction without trailing zeros.
pub open spec fn seconds_text_spec(ms: int) -> Seq<char> {
    let magnitude = if ms < 0 { -ms } else { ms };
    let fraction = thousandths((magnitude % 1000) as nat);
    (if ms < 0 { "-"@ } else { Seq::empty() }) + decimal((magnitude / 1000) as nat) + if fraction.len() == 0 {
        Seq::empty()
    } else {
        seq!['.'] + fraction
    }
}

/// A timing of `ms` milliseconds written in seconds (see `seconds_text_spec`).
pub fn seconds_text(ms: i64) -> (text: String)
    ensures
        text@ == seconds_text_spec(ms as int),
{
    let magnitude: u64 = if ms < 0 { (-(ms as i128)) as u64 } else { ms as u64 };
    let millis = magnitude % 1000;
    let mut out: Vec<char> = Vec::new();
    if ms < 0 {
        out.push('-');
    }
    let out = join_chars(&out, &decimal_chars(magnitude / 1000));
    let d1 = millis / 100;
    let d2 = (millis / 10) % 10;
    let d3 = millis % 10;
    let mut fraction: Vec<char> = Vec::new();
    if millis != 0 {
        fraction.push('.');
        fraction.push(digit_char(d1));
        if d2 != 0 || d3 != 0 {
            fraction.push(digit_char(d2));
        }
        if d3 != 0 {
            fraction.push(digit_char(d3));
        }
    }
    let all = join_chars(&out, &fraction);
    proof {
        reveal_strlit("-");
        let f = thousandths(millis as nat);
        if millis != 0 {
            assert(fraction@ =~= seq!['.'] + f);
        } else {
            assert(fraction@ =~= Seq::<char>::empty());
        }
        assert(all@ =~= seconds_text_spec(ms as int));
    }
    string_of(all.as_slice())
}

/// A digit character is a digit that reads back as its value.
proof fn lemma_digit(d: nat)
    requires
        d < 10,
    ensures
        is_digit(digit(d)),
        ((digit(d) as u32) - ('0' as u32)) as nat == d,
{
}

/// Decimal digits are digits that read back as their number.
proof fn lemma_decimal(n: nat)
    ensures
        all_digits(decimal(n)),
        decimal(n).len() >= 1,
        digits_value(decimal(n)) == n,
    decreases n,
{
    if n < 10 {
        lemma_digit(n);
        assert(seq![digit(n)] =~= Seq::<char>::empty().push(digit(n)));
        lemma_digits_push(Seq::<char>::empty(), digit(n));
    } else {
        lemma_decimal(n / 10);
        lemma_digit(n % 10);
        lemma_digits_push(decimal(n / 10), digit(n % 10));
        assert(n / 10 * 10 + n % 10 == n);
        let text = decimal(n);
        assert forall|i: int| 0 <= i < text.len() implies is_digit(#[trigger] text[i]) by {
            if i < text.len() - 1 {
                assert(text[i] == decimal(n / 10)[i]);
            }
        }
    }
}

/// Text of digits has no decimal point.
proof fn lemma_point_none(text: Seq<char>)
    requires
        all_digits(text),
    ensures
        point(text) is None,
    decreases text.len(),
{
    if text.len() > 0 {
        let rest = text.drop_last();
        assert forall|i: int| 0 <= i < rest.len() implies is_digit(#[trigger] rest[i]) by {
            assert(is_digit(text[i]));
        }
        lemma_point_none(rest);
        assert(is_digit(text[text.len() - 1]));
    }
}

/// Text that starts with a digit names no infinite or undefined number.
proof fn lemma_digit_is_finite(text: Seq<char>)
    requires
        text.len() > 0,
        is_digit(text[0]),
    ensures
        !names_non_finite(text),
{
    reveal_strlit("inf");
    reveal_strlit("infinity");
    reveal_strlit("nan");
    if folds(text, "inf"@) {
        assert(text[0] == "inf"@[0] || ('a' <= "inf"@[0] <= 'z' && (text[0] as u32) + 32 == "inf"@[0] as u32));
    }
    if folds(text, "infinity"@) {
        assert(text[0] == "infinity"@[0] || ('a' <= "infinity"@[0] <= 'z' && (text[0] as u32) + 32
            == "infinity"@[0] as u32));
    }
    if folds(text, "nan"@) {
        assert(text[0] == "nan"@[0] || ('a' <= "nan"@[0] <= 'z' && (text[0] as u32) + 32 == "nan"@[0] as u32));
    }
}

/// The fraction digits of `millis` thousandths are digits, and padded to three they read
/// back as `millis`.
proof fn lemma_thousandths(millis: nat)
    requires
        millis < 1000,
    ensures
        all_digits(thousandths(millis)),
        millis_of(thousandths(millis)) == millis,
{
    let d1 = millis / 100;
    let d2 = (millis / 10) % 10;
    let d3 = millis % 10;
    lemma_digit(d1);
    lemma_digit(d2);
    lemma_digit(d3);
    lemma_digit(0);
    let fraction = thousandths(millis);
    let padded = (fraction + "000"@).take(3);
    reveal_strlit("000");
    let three = seq![digit(d1), digit(d2), digit(d3)];
    if millis == 0 {
        assert(padded =~= seq![digit(0), digit(0), digit(0)]);
    } else if d3 != 0 {
        assert(padded =~= three);
    } else if d2 != 0 {
        assert(padded =~= seq![digit(d1), digit(d2), digit(0)]);
    } else {
        assert(padded =~= seq![digit(d1), digit(0), digit(0)]);
    }
    assert(padded.drop_last().drop_last().drop_last() =~= Seq::<char>::empty());
    lemma_digits_push(padded.drop_last().drop_last().drop_last(), padded[0]);
    assert(padded.drop_last().drop_last() =~= seq![padded[0]]);
    assert(seq![padded[0]] =~= Seq::<char>::empty().push(padded[0]));
    assert(padded.drop_last() =~= padded.drop_last().drop_last().push(padded[1]));
    lemma_digits_push(padded.drop_last().drop_last(), padded[1]);
    assert(padded =~= padded.drop_last().push(padded[2]));
    lemma_digits_push(padded.drop_last(), padded[2]);
    assert(millis == d1 * 100 + d2 * 10 + d3);
}

/// A timing within the limit, written as the timing field shows it, reads back as the
/// same number of milliseconds.
pub proof fn law_timing_text_reads_back(ms: int)
    requires
        -30000 <= ms <= 30000,
    ensures
        offset_input(seconds_text_spec(ms)) == OffsetInput::Millis(ms as i64),
{
    reveal_strlit("-");
    let magnitude = if ms < 0 { -ms } else { ms };
    let whole = (magnitude / 1000) as nat;
    let millis = (magnitude % 1000) as nat;
    let fraction = thousandths(millis);
    let digits = decimal(whole);
    let rest = if fraction.len() == 0 { Seq::empty() } else { seq!['.'] + fraction };
    let body = digits + rest;
    let text = seconds_text_spec(ms);
    lemma_decimal(whole);
    lemma_thousandths(millis);
    if ms < 0 {
        assert(text =~= seq!['-'] + body);
        assert(unsigned(text) =~= body);
    } else {
        assert(text =~= body);
        assert(is_digit(body[0]));
        assert(unsigned(text) == body);
    }
    assert(body[0] == digits[0]);
    lemma_digit_is_finite(body);
    lemma_point_none(digits);
    if fraction.len() == 0 {
        assert(body =~= digits);
        assert(whole_part(body) == digits);
        assert(fraction_part(body) =~= Seq::<char>::empty());
        assert(Seq::<char>::empty() =~= thousandths(0));
    } else {
        assert(body.take(digits.len() as int) =~= digits);
        lemma_point_found(body, digits.len() as int);
        assert(whole_part(body) =~= digits);
        assert(fraction_part(body) =~= fraction);
    }
    assert(all_digits(fraction_part(body)));
    if whole == 30 {
        assert(millis == 0);
    }
    assert(whole * 1000 + millis == magnitude);
}

} // verus!
