//! Character-level access to text: indexing, searching and slicing.
//!
//! A piece of text is modelled by the sequence of its characters. The
//! executable functions work on a vector of characters and a range in it, so
//! that a field of a line can be examined without copying it.

use vstd::prelude::*;

verus! {

/// The position of the last occurrence of `c` in `s`, if there is one.
pub open spec fn last_index_of(s: Seq<char>, c: char) -> Option<int>
    decreases s.len(),
{
    if s.len() == 0 {
        None
    } else if s.last() == c {
        Some(s.len() - 1)
    } else {
        last_index_of(s.drop_last(), c)
    }
}

/// Whether `pattern` occurs in `s` at position `at`.
pub open spec fn matches_at(s: Seq<char>, pattern: Seq<char>, at: int) -> bool {
    0 <= at && at + pattern.len() <= s.len() && s.subrange(at, at + pattern.len()) == pattern
}

/// The position of the first occurrence of `pattern` in `s` that starts at
/// `from` or later, if there is one.
pub open spec fn first_match_from(s: Seq<char>, pattern: Seq<char>, from: int) -> Option<int>
    decreases s.len() + 1 - from,
{
    if from < 0 || from + pattern.len() > s.len() {
        None
    } else if matches_at(s, pattern, from) {
        Some(from)
    } else {
        first_match_from(s, pattern, from + 1)
    }
}

/// The position of the first occurrence of `pattern` in `s`, if there is one.
pub open spec fn first_match(s: Seq<char>, pattern: Seq<char>) -> Option<int> {
    first_match_from(s, pattern, 0)
}

/// `last_index_of` finds an occurrence, and nothing occurs after it.
pub proof fn lemma_last_index_of(s: Seq<char>, c: char)
    ensures
        match last_index_of(s, c) {
            Some(i) => 0 <= i < s.len() && s[i] == c && forall|j: int|
                i < j < s.len() ==> s[j] != c,
            None => forall|j: int| 0 <= j < s.len() ==> s[j] != c,
        },
    decreases s.len(),
{
    if s.len() > 0 && s.last() != c {
        let front = s.drop_last();
        lemma_last_index_of(front, c);
        assert(forall|j: int| 0 <= j < front.len() ==> front[j] == s[j]);
    }
}

/// `first_match_from` finds an occurrence, and none starts between `from` and it.
pub proof fn lemma_first_match_from(s: Seq<char>, pattern: Seq<char>, from: int)
    requires
        0 <= from,
    ensures
        match first_match_from(s, pattern, from) {
            Some(i) => from <= i && matches_at(s, pattern, i) && forall|j: int|
                from <= j < i ==> !#[trigger] matches_at(s, pattern, j),
            None => forall|j: int| from <= j ==> !#[trigger] matches_at(s, pattern, j),
        },
    decreases s.len() + 1 - from,
{
    if from + pattern.len() <= s.len() && !matches_at(s, pattern, from) {
        lemma_first_match_from(s, pattern, from + 1);
    }
}

/// Copies the characters of `s` into a vector, so that they can be indexed in
/// constant time.
pub fn chars_of(s: &str) -> (chars: Vec<char>)
    ensures
        chars@ == s@,
{
    broadcast use vstd::string::group_string_axioms;

    let mut chars: Vec<char> = Vec::new();
    for c in it: s.chars()
        invariant
            it.seq() == s@,
            chars@ == s@.take(it.index() as int),
    {
        chars.push(c);
    }
    chars
}

/// Whether the characters of `s` from `from` up to `to` are those of `word`.
pub(crate) fn range_equals(s: &Vec<char>, from: usize, to: usize, word: &Vec<char>) -> (same: bool)
    requires
        from <= to <= s.len(),
    ensures
        same == (s@.subrange(from as int, to as int) == word@),
{
    if to - from != word.len() {
        return false;
    }
    let ghost field = s@.subrange(from as int, to as int);
    let mut i: usize = 0;
    while i < word.len()
        invariant
            from <= to <= s.len(),
            to - from == word.len(),
            i <= word.len(),
            field == s@.subrange(from as int, to as int),
            forall|j: int| 0 <= j < i ==> field[j] == word@[j],
        decreases word.len() - i,
    {
        if s[from + i] != word[i] {
            assert(field[i as int] != word@[i as int]);
            return false;
        }
        i += 1;
    }
    assert(field =~= word@);
    true
}

/// Finds the last occurrence of `c` among the characters of `s` from `from` up
/// to `to`. The position returned counts from `from`.
pub(crate) fn rfind_char(s: &Vec<char>, from: usize, to: usize, c: char) -> (found: Option<usize>)
    requires
        from <= to <= s.len(),
    ensures
        match found {
            Some(i) => last_index_of(s@.subrange(from as int, to as int), c) == Some(i as int),
            None => last_index_of(s@.subrange(from as int, to as int), c) is None,
        },
{
    let ghost field = s@.subrange(from as int, to as int);
    let mut end: usize = to;
    assert(field.take(to - from) =~= field);
    while end > from
        invariant
            from <= end <= to <= s.len(),
            field == s@.subrange(from as int, to as int),
            last_index_of(field, c) == last_index_of(field.take(end - from), c),
        decreases end,
    {
        let ghost prefix = field.take(end - from);
        if s[end - 1] == c {
            assert(prefix.last() == c);
            return Some(end - 1 - from);
        }
        assert(prefix.drop_last() =~= field.take(end - 1 - from));
        end -= 1;
    }
    assert(field.take(0).len() == 0);
    None
}

/// Finds the first occurrence of `pattern` among the characters of `s` from
/// `from` up to `to`. The position returned counts from `from`.
pub(crate) fn find_chars(s: &Vec<char>, from: usize, to: usize, pattern: &Vec<char>) -> (found: Option<
    usize,
>)
    requires
        from <= to <= s.len(),
    ensures
        match found {
            Some(i) => first_match(s@.subrange(from as int, to as int), pattern@) == Some(
                i as int,
            ),
            None => first_match(s@.subrange(from as int, to as int), pattern@) is None,
        },
{
    let ghost field = s@.subrange(from as int, to as int);
    if pattern.len() > to - from {
        return None;
    }
    let last: usize = to - pattern.len();
    let mut start: usize = from;
    loop
        invariant
            from <= start <= last,
            last + pattern.len() == to,
            to <= s.len(),
            field == s@.subrange(from as int, to as int),
            first_match(field, pattern@) == first_match_from(field, pattern@, start - from),
        decreases last - start,
    {
        assert(field.subrange(start - from, start - from + pattern@.len()) =~= s@.subrange(
            start as int,
            start + pattern.len(),
        ));
        if range_equals(s, start, start + pattern.len(), pattern) {
            return Some(start - from);
        }
        if start == last {
            assert(first_match_from(field, pattern@, start - from + 1) is None);
            return None;
        }
        start += 1;
    }
}

/// The characters of `s` from `from` up to `to`, as a string of their own.
pub(crate) fn substring(s: &str, from: usize, to: usize) -> (part: String)
    requires
        from <= to <= s@.len(),
    ensures
        part@ == s@.subrange(from as int, to as int),
{
    s.substring_char(from, to).to_owned()
}

} // verus!
