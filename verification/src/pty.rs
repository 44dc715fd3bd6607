//! Reading a terminal session's output: byte search and the child process ID the
//! supervising process reports as `PTY_CHILD=<pid>`.
use crate::patterns::{find_from, first_match};
use crate::text::{chars_of, is_whitespace, is_whitespace_spec, slice_chars};
use vstd::prelude::*;

verus! {

/// The text `String::from_utf8_lossy` makes of some bytes.
pub uninterp spec fn lossy_text_of(bytes: Seq<u8>) -> Seq<char>;

/// `String::from_utf8_lossy`, owned: the bytes as text, with U+FFFD for each malformed
/// sequence. The contract names the result.
#[verifier::external_body]
fn lossy_text(bytes: &[u8]) -> (text: String)
    ensures
        text@ == lossy_text_of(bytes@),
{
    String::from_utf8_lossy(bytes).into_owned()
}

/// Whether `needle` occurs in `bytes` at position `at`.
pub open spec fn bytes_at(bytes: Seq<u8>, needle: Seq<u8>, at: int) -> bool {
    0 <= at && at + needle.len() <= bytes.len() && bytes.subrange(at, at + needle.len()) == needle
}

/// Whether `needle`, which is not empty, occurs in `bytes`.
pub fn contains(bytes: &[u8], needle: &[u8]) -> (found: bool)
    requires
        needle@.len() > 0,
    ensures
        found == exists|at: int| bytes_at(bytes@, needle@, at),
{
    if needle.len() > bytes.len() {
        assert forall|at: int| !bytes_at(bytes@, needle@, at) by {}
        return false;
    }
    let last = bytes.len() - needle.len();
    let mut at: usize = 0;
    while at <= last
        invariant
            last + needle@.len() == bytes@.len(),
            bytes@.len() <= usize::MAX,
            at <= last + 1,
            forall|k: int| 0 <= k < at ==> !bytes_at(bytes@, needle@, k),
        decreases last + 1 - at,
    {
        let mut k: usize = 0;
        let mut same = true;
        while k < needle.len()
            invariant
                at <= last,
                last + needle@.len() == bytes@.len(),
                bytes@.len() <= usize::MAX,
                k <= needle@.len(),
                same == forall|j: int| 0 <= j < k ==> bytes@[at + j] == needle@[j],
            decreases needle@.len() - k,
        {
            if bytes[at + k] != needle[k] {
                same = false;
            }
            k = k + 1;
        }
        if same {
            assert(bytes@.subrange(at as int, at + needle@.len()) =~= needle@);
            assert(bytes_at(bytes@, needle@, at as int));
            return true;
        }
        assert(!bytes_at(bytes@, needle@, at as int)) by {
            if bytes_at(bytes@, needle@, at as int) {
                assert forall|j: int| 0 <= j < needle@.len() implies bytes@[at + j] == needle@[j] by {
                    assert(bytes@.subrange(at as int, at + needle@.len())[j] == bytes@[at + j]);
                }
            }
        }
        at = at + 1;
    }
    assert forall|k: int| !bytes_at(bytes@, needle@, k) by {
        if 0 <= k && k + needle@.len() <= bytes@.len() {
            assert(k <= last);
        }
    }
    false
}

/// The marker before the child process ID.
pub open spec fn child_marker() -> Seq<char> {
    "PTY_CHILD="@
}

/// The text between the first marker and the next one (or the end), if there is a marker.
pub open spec fn after_marker(text: Seq<char>) -> Option<Seq<char>> {
    match first_match(text, child_marker(), 0) {
        None => None,
        Some(at) => {
            let rest = text.skip(at + child_marker().len());
            match first_match(rest, child_marker(), 0) {
                Some(end) => Some(rest.take(end)),
                None => Some(rest),
            }
        },
    }
}

/// The number of leading white-space characters of `s`.
pub open spec fn leading_space(s: Seq<char>) -> nat
    decreases s.len(),
{
    if s.len() > 0 && is_whitespace_spec(s[0]) {
        1 + leading_space(s.skip(1))
    } else {
        0
    }
}

/// The number of leading characters of `s` that are not white space.
pub open spec fn word_length(s: Seq<char>) -> nat
    decreases s.len(),
{
    if s.len() > 0 && !is_whitespace_spec(s[0]) {
        1 + word_length(s.skip(1))
    } else {
        0
    }
}

/// The first white-space separated word of `s`, if any.
pub open spec fn first_word(s: Seq<char>) -> Option<Seq<char>> {
    let rest = s.skip(leading_space(s) as int);
    if rest.len() == 0 {
        None
    } else {
        Some(rest.take(word_length(rest) as int))
    }
}

/// The value of an ASCII decimal digit.
pub open spec fn digit_value(c: char) -> Option<int> {
    if '0' <= c <= '9' {
        Some(c as int - '0' as int)
    } else {
        None
    }
}

/// Why a text is not an `i32`, in the words of std's `ParseIntError`.
pub open spec fn parse_failure(kind: int) -> Seq<char> {
    if kind == 0 {
        "cannot parse integer from empty string"@
    } else if kind == 1 {
        "invalid digit found in string"@
    } else if kind == 2 {
        "number too large to fit in target type"@
    } else {
        "number too small to fit in target type"@
    }
}

/// Reads `digits` into `acc`, one character at a time from the left, as `str::parse::<i32>`
/// does: each character must be a digit, and the value must stay within `i32` after each
/// step, growing (or, for a negative number, shrinking) by the digit.
pub open spec fn read_digits(digits: Seq<char>, acc: int, negative: bool) -> Result<int, int>
    decreases digits.len(),
{
    if digits.len() == 0 {
        Ok(acc)
    } else {
        match digit_value(digits[0]) {
            None => Err(1),
            Some(d) => {
                let next = if negative { acc * 10 - d } else { acc * 10 + d };
                if !negative && acc * 10 > i32::MAX {
                    Err(2)
                } else if negative && acc * 10 < i32::MIN {
                    Err(3)
                } else if next > i32::MAX {
                    Err(2)
                } else if next < i32::MIN {
                    Err(3)
                } else {
                    read_digits(digits.skip(1), next, negative)
                }
            },
        }
    }
}

/// `str::parse::<i32>`: an optional sign, then decimal digits; the error is a kind of
/// failure: empty, invalid digit, too large, too small.
pub open spec fn parsed_i32(s: Seq<char>) -> Result<int, int> {
    if s.len() == 0 {
        Err(0)
    } else {
        let (negative, digits) = if s[0] == '-' {
            (true, s.skip(1))
        } else if s[0] == '+' {
            (false, s.skip(1))
        } else {
            (false, s)
        };
        if digits.len() == 0 {
            Err(1)
        } else {
            read_digits(digits, 0, negative)
        }
    }
}

/// Parses a decimal `i32` as `str::parse` does, with its error messages.
pub fn parse_i32(s: &Vec<char>) -> (value: Result<i32, String>)
    ensures
        match (value, parsed_i32(s@)) {
            (Ok(v), Ok(n)) => v == n,
            (Err(e), Err(kind)) => e@ == parse_failure(kind),
            _ => false,
        },
{
    if s.len() == 0 {
        return Err(String::from_str("cannot parse integer from empty string"));
    }
    let negative = s[0] == '-';
    let start: usize = if s[0] == '-' || s[0] == '+' {
        1
    } else {
        0
    };
    if start == s.len() {
        return Err(String::from_str("invalid digit found in string"));
    }
    let ghost digits = s@.skip(start as int);
    proof {
        if s@[0] == '-' {
            assert(negative && start == 1);
        } else if s@[0] == '+' {
            assert(!negative && start == 1);
        } else {
            assert(!negative && start == 0);
            assert(digits =~= s@);
        }
        assert(digits.len() > 0);
    }
    assert(parsed_i32(s@) == read_digits(digits, 0, negative));
    let mut acc: i64 = 0;
    let mut i: usize = start;
    assert(s@.skip(i as int) == digits);
    while i < s.len()
        invariant
            start <= i <= s@.len(),
            digits == s@.skip(start as int),
            i32::MIN <= acc <= i32::MAX,
            read_digits(digits, 0, negative) == read_digits(s@.skip(i as int), acc as int, negative),
            parsed_i32(s@) == read_digits(digits, 0, negative),
            negative ==> acc <= 0,
            !negative ==> acc >= 0,
        decreases s@.len() - i,
    {
        let c = s[i];
        let ghost rest = s@.skip(i as int);
        assert(rest[0] == c);
        assert(rest.skip(1) =~= s@.skip(i + 1));
        assert(rest.len() > 0);
        if c < '0' || c > '9' {
            return Err(String::from_str("invalid digit found in string"));
        }
        let d = (c as u32 - '0' as u32) as i64;
        if !negative && acc * 10 > i32::MAX as i64 {
            return Err(String::from_str("number too large to fit in target type"));
        }
        if negative && acc * 10 < i32::MIN as i64 {
            return Err(String::from_str("number too small to fit in target type"));
        }
        let next = if negative {
            acc * 10 - d
        } else {
            acc * 10 + d
        };
        if next > i32::MAX as i64 {
            return Err(String::from_str("number too large to fit in target type"));
        }
        if next < i32::MIN as i64 {
            return Err(String::from_str("number too small to fit in target type"));
        }
        acc = next;
        i = i + 1;
    }
    Ok(acc as i32)
}

/// What reading the child process ID from session output gives.
pub open spec fn child_outcome(bytes: Seq<u8>) -> Result<int, Seq<char>> {
    match after_marker(lossy_text_of(bytes)) {
        None => Err("Missing PTY child"@),
        Some(value) => match first_word(value) {
            None => Err("Missing PTY pid"@),
            Some(word) => match parsed_i32(word) {
                Ok(n) => Ok(n),
                Err(kind) => Err(parse_failure(kind)),
            },
        },
    }
}

/// The child process ID the session output reports after `PTY_CHILD=`.
pub fn native_pid(output: &[u8]) -> (pid: Result<i32, String>)
    ensures
        match (pid, child_outcome(output@)) {
            (Ok(v), Ok(n)) => v == n,
            (Err(e), Err(expected)) => e@ == expected,
            _ => false,
        },
{
    let text = chars_of(lossy_text(output).as_str());
    let marker = chars_of("PTY_CHILD=");
    proof {
        reveal_strlit("PTY_CHILD=");
    }
    let at = match find_from(&text, &marker, 0) {
        Some(at) => at,
        None => return Err(String::from_str("Missing PTY child")),
    };
    let total = text.len();
    assert(at + marker@.len() <= total);
    let rest = slice_chars(&text, at + marker.len(), total);
    assert(rest@ =~= text@.skip(at + marker@.len()));
    let value = match find_from(&rest, &marker, 0) {
        Some(end) => slice_chars(&rest, 0, end),
        None => rest,
    };
    assert(after_marker(text@) == Some(value@));
    let mut i: usize = 0;
    assert(value@.skip(0) =~= value@);
    while i < value.len() && is_whitespace(value[i])
        invariant
            i <= value@.len(),
            leading_space(value@) == i + leading_space(value@.skip(i as int)),
        decreases value@.len() - i,
    {
        assert(value@.skip(i as int).skip(1) =~= value@.skip(i + 1));
        i = i + 1;
    }
    assert(leading_space(value@.skip(i as int)) == 0);
    if i == value.len() {
        return Err(String::from_str("Missing PTY pid"));
    }
    let mut j: usize = i;
    assert(value@.skip(i as int).skip(0) =~= value@.skip(i as int));
    while j < value.len() && !is_whitespace(value[j])
        invariant
            i <= j <= value@.len(),
            word_length(value@.skip(i as int)) == (j - i) + word_length(value@.skip(j as int)),
        decreases value@.len() - j,
    {
        assert(value@.skip(j as int).skip(1) =~= value@.skip(j + 1));
        j = j + 1;
    }
    assert(word_length(value@.skip(j as int)) == 0);
    let word = slice_chars(&value, i, j);
    assert(word@ =~= value@.skip(i as int).take((j - i) as int));
    parse_i32(&word)
}

} // verus!
