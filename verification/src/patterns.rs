//! Literal substring search over characters: occurrence counting, replacement and
//! splitting, each taking matches from the left without overlap.
use vstd::prelude::*;

verus! {

/// Whether `pattern` occurs in `text` at position `at`.
pub open spec fn occurs_at(text: Seq<char>, pattern: Seq<char>, at: int) -> bool {
    0 <= at && at + pattern.len() <= text.len() && text.subrange(at, at + pattern.len()) == pattern
}

/// `text` with every match of `pattern` replaced by `with`, matches taken from the left
/// without overlap.
pub open spec fn replaced(text: Seq<char>, pattern: Seq<char>, with: Seq<char>) -> Seq<char>
    recommends
        pattern.len() > 0,
    decreases text.len(),
{
    if text.len() == 0 || pattern.len() == 0 {
        text
    } else if occurs_at(text, pattern, 0) {
        with + replaced(text.skip(pattern.len() as int), pattern, with)
    } else {
        seq![text[0]] + replaced(text.skip(1), pattern, with)
    }
}

/// The number of matches of `pattern` in `text`, taken from the left without overlap.
pub open spec fn occurrences(text: Seq<char>, pattern: Seq<char>) -> nat
    recommends
        pattern.len() > 0,
    decreases text.len(),
{
    if text.len() == 0 || pattern.len() == 0 {
        0
    } else if occurs_at(text, pattern, 0) {
        1 + occurrences(text.skip(pattern.len() as int), pattern)
    } else {
        occurrences(text.skip(1), pattern)
    }
}

/// The first position at or after `from` where `pattern` occurs, if any.
pub open spec fn first_match(text: Seq<char>, pattern: Seq<char>, from: int) -> Option<int>
    decreases text.len() + 1 - from,
{
    if from < 0 || from + pattern.len() > text.len() {
        None
    } else if occurs_at(text, pattern, from) {
        Some(from)
    } else {
        first_match(text, pattern, from + 1)
    }
}

/// `first_match` finds the first occurrence at or after `from`.
pub proof fn lemma_first_match(text: Seq<char>, pattern: Seq<char>, from: int)
    requires
        0 <= from,
    ensures
        match first_match(text, pattern, from) {
            Some(at) => from <= at && occurs_at(text, pattern, at) && forall|j: int|
                from <= j < at ==> !#[trigger] occurs_at(text, pattern, j),
            None => forall|j: int| from <= j ==> !#[trigger] occurs_at(text, pattern, j),
        },
    decreases text.len() + 1 - from,
{
    if from + pattern.len() <= text.len() && !occurs_at(text, pattern, from) {
        lemma_first_match(text, pattern, from + 1);
    }
}

/// Whether `pattern` occurs in `text` at position `at`.
pub fn matches_at(text: &Vec<char>, pattern: &Vec<char>, at: usize) -> (found: bool)
    ensures
        found == occurs_at(text@, pattern@, at as int),
{
    if at > text.len() || pattern.len() > text.len() - at {
        return false;
    }
    let mut k: usize = 0;
    while k < pattern.len()
        invariant
            text@.len() <= usize::MAX,
            at <= text@.len(),
            at + pattern@.len() <= text@.len(),
            k <= pattern@.len(),
            forall|j: int| 0 <= j < k ==> text@[at + j] == pattern@[j],
        decreases pattern@.len() - k,
    {
        if text[at + k] != pattern[k] {
            assert(text@.subrange(at as int, at + pattern@.len())[k as int] != pattern@[k as int]);
            return false;
        }
        k = k + 1;
    }
    assert(text@.subrange(at as int, at + pattern@.len()) =~= pattern@);
    true
}

proof fn lemma_skip_occurs(text: Seq<char>, pattern: Seq<char>, i: int)
    requires
        0 <= i <= text.len(),
    ensures
        occurs_at(text.skip(i), pattern, 0) == occurs_at(text, pattern, i),
{
    if i + pattern.len() <= text.len() {
        assert(text.skip(i).subrange(0, pattern.len() as int) =~= text.subrange(i, i + pattern.len()));
    }
}

/// `text` with every match of `pattern` replaced by `with`.
pub fn replace_all(text: &Vec<char>, pattern: &Vec<char>, with: &Vec<char>) -> (result: Vec<char>)
    requires
        pattern@.len() > 0,
    ensures
        result@ == replaced(text@, pattern@, with@),
{
    let mut out: Vec<char> = Vec::new();
    let mut i: usize = 0;
    assert(text@.skip(0) =~= text@);
    while i < text.len()
        invariant
            pattern@.len() > 0,
            i <= text@.len(),
            out@ + replaced(text@.skip(i as int), pattern@, with@) == replaced(text@, pattern@, with@),
        decreases text@.len() - i,
    {
        let ghost rest = text@.skip(i as int);
        proof {
            lemma_skip_occurs(text@, pattern@, i as int);
        }
        if matches_at(text, pattern, i) {
            let ghost before = out@;
            let mut k: usize = 0;
            while k < with.len()
                invariant
                    k <= with@.len(),
                    out@ == before + with@.take(k as int),
                decreases with@.len() - k,
            {
                out.push(with[k]);
                assert(before + with@.take(k + 1) =~= (before + with@.take(k as int)).push(with@[k as int]));
                k = k + 1;
            }
            assert(with@.take(with@.len() as int) =~= with@);
            assert(rest.skip(pattern@.len() as int) =~= text@.skip(i + pattern@.len()));
            assert(before + (with@ + replaced(rest.skip(pattern@.len() as int), pattern@, with@)) =~= out@
                + replaced(text@.skip(i + pattern@.len()), pattern@, with@));
            i = i + pattern.len();
        } else {
            let ghost before = out@;
            out.push(text[i]);
            assert(rest.skip(1) =~= text@.skip(i + 1));
            assert(before + (seq![rest[0]] + replaced(rest.skip(1), pattern@, with@)) =~= out@ + replaced(
                text@.skip(i + 1),
                pattern@,
                with@,
            ));
            i = i + 1;
        }
    }
    assert(text@.skip(i as int).len() == 0);
    assert(out@ + replaced(text@.skip(i as int), pattern@, with@) =~= out@);
    out
}

/// The number of matches of `pattern` in `text`.
pub fn count_matches(text: &Vec<char>, pattern: &Vec<char>) -> (count: usize)
    requires
        pattern@.len() > 0,
    ensures
        count == occurrences(text@, pattern@),
{
    let mut count: usize = 0;
    let mut i: usize = 0;
    assert(text@.skip(0) =~= text@);
    while i < text.len()
        invariant
            pattern@.len() > 0,
            i <= text@.len(),
            count <= i,
            count + occurrences(text@.skip(i as int), pattern@) == occurrences(text@, pattern@),
        decreases text@.len() - i,
    {
        let ghost rest = text@.skip(i as int);
        proof {
            lemma_skip_occurs(text@, pattern@, i as int);
        }
        if matches_at(text, pattern, i) {
            assert(rest.skip(pattern@.len() as int) =~= text@.skip(i + pattern@.len()));
            count = count + 1;
            i = i + pattern.len();
        } else {
            assert(rest.skip(1) =~= text@.skip(i + 1));
            i = i + 1;
        }
    }
    count
}

/// The first position at or after `from` where `pattern` occurs, if any.
pub fn find_from(text: &Vec<char>, pattern: &Vec<char>, from: usize) -> (found: Option<usize>)
    requires
        from <= text@.len(),
    ensures
        match found {
            Some(at) => first_match(text@, pattern@, from as int) == Some(at as int) && occurs_at(
                text@,
                pattern@,
                at as int,
            ),
            None => first_match(text@, pattern@, from as int) is None,
        },
{
    proof {
        lemma_first_match(text@, pattern@, from as int);
    }
    let mut i: usize = from;
    while i < text.len()
        invariant
            from <= i <= text@.len(),
            first_match(text@, pattern@, from as int) == first_match(text@, pattern@, i as int),
        decreases text@.len() - i,
    {
        if pattern.len() > text.len() - i {
            return None;
        }
        if matches_at(text, pattern, i) {
            return Some(i);
        }
        i = i + 1;
    }
    if matches_at(text, pattern, i) {
        assert(first_match(text@, pattern@, i as int) == Some(i as int));
        Some(i)
    } else {
        assert(first_match(text@, pattern@, i + 1) is None);
        None
    }
}

} // verus!
