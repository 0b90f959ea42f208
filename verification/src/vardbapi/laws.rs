//! What holds of every manifest line.

use crate::number::{
    all_hex_digits, ascii_lower, decimal_u64, hex_bytes, hex_digit, lemma_hex_digit_ignores_case,
    same_ignoring_case, NumberError,
};
use crate::text::{
    first_match, first_match_from, last_index_of, lemma_first_match_from, matches_at,
};
use crate::vardbapi::grammar::{
    before_last_field, has_known_type, has_type, hash_of, last_field, line_entry,
    link_separator, FIELDS_START, MD5_HEX_LEN, MIN_LINE_LEN,
};
use crate::vardbapi::{EntryView, ErrorView, HashView, MetadataView};
use vstd::prelude::*;

verus! {

/// Whether `s` holds no space.
pub open spec fn has_no_space(s: Seq<char>) -> bool {
    forall|i: int| 0 <= i < s.len() ==> s[i] != ' '
}

/// The `obj` line for a path, a hash field and a modification time field.
pub open spec fn obj_line(path: Seq<char>, hash: Seq<char>, mtime: Seq<char>) -> Seq<char> {
    seq!['o', 'b', 'j', ' '] + path + seq![' '] + hash + seq![' '] + mtime
}

/// The `sym` line for a path, a destination and a modification time field.
pub open spec fn sym_line(path: Seq<char>, dest: Seq<char>, mtime: Seq<char>) -> Seq<char> {
    seq!['s', 'y', 'm', ' '] + path + link_separator() + dest + seq![' '] + mtime
}

/// The last space of a text that ends in a space and a field without one is
/// the space before that field.
pub proof fn lemma_last_space(front: Seq<char>, field: Seq<char>)
    requires
        has_no_space(field),
    ensures
        last_index_of(front + seq![' '] + field, ' ') == Some(front.len() as int),
        last_field(front + seq![' '] + field) == field,
        before_last_field(front + seq![' '] + field) == Some(front),
    decreases field.len(),
{
    let s = front + seq![' '] + field;
    if field.len() > 0 {
        assert(s.last() == field.last());
        assert(s.drop_last() =~= front + seq![' '] + field.drop_last());
        lemma_last_space(front, field.drop_last());
    } else {
        assert(s.last() == ' ');
    }
    assert(s.skip(front.len() as int + 1) =~= field);
    assert(s.take(front.len() as int) =~= front);
}

/// Where a pattern occurs at `at` and nowhere from `from` up to `at`, its
/// first occurrence from `from` on is at `at`.
pub proof fn lemma_first_match_is(s: Seq<char>, pattern: Seq<char>, from: int, at: int)
    requires
        0 <= from <= at,
        matches_at(s, pattern, at),
        forall|j: int| from <= j < at ==> !#[trigger] matches_at(s, pattern, j),
    ensures
        first_match_from(s, pattern, from) == Some(at),
    decreases at - from,
{
    if from < at {
        assert(!matches_at(s, pattern, from));
        lemma_first_match_is(s, pattern, from + 1, at);
    }
}

/// The case of its letters does not change what a digest field writes: a
/// field of 32 hexadecimal digits and any field that differs from it only in
/// the case of letters write the same digest.
pub proof fn law_hash_ignores_case(contents: Seq<char>, line: usize, s: Seq<char>, t: Seq<char>)
    requires
        s.len() == MD5_HEX_LEN,
        all_hex_digits(s),
        same_ignoring_case(s, t),
    ensures
        hash_of(contents, line, s) == Ok::<HashView, ErrorView>(HashView::MD5(hex_bytes(s))),
        hash_of(contents, line, t) == hash_of(contents, line, s),
        hex_bytes(s).len() == 16,
{
    assert forall|i: int| 0 <= i < s.len() implies hex_digit(#[trigger] t[i]) == hex_digit(
        s[i],
    ) by {
        lemma_hex_digit_ignores_case(s[i]);
        lemma_hex_digit_ignores_case(t[i]);
        assert(ascii_lower(s[i]) == ascii_lower(t[i]));
    }
    assert(all_hex_digits(t)) by {
        assert forall|i: int| 0 <= i < t.len() implies hex_digit(#[trigger] t[i]) is Some by {
            assert(hex_digit(s[i]) is Some);
        }
    }
    assert(hex_bytes(s) =~= hex_bytes(t)) by {
        assert forall|i: int| 0 <= i < 16 implies #[trigger] hex_bytes(s)[i] == hex_bytes(
            t,
        )[i] by {
            assert(hex_digit(t[2 * i]) == hex_digit(s[2 * i]));
            assert(hex_digit(t[2 * i + 1]) == hex_digit(s[2 * i + 1]));
        }
    }
}

/// A hash field is refused with the error of its fault: one that is not 32
/// characters long as of no handled scheme, one of 32 characters that are
/// not all hexadecimal digits as invalid.
pub proof fn law_refused_hash(contents: Seq<char>, line: usize, raw: Seq<char>)
    ensures
        raw.len() != MD5_HEX_LEN ==> hash_of(contents, line, raw) == Err::<HashView, ErrorView>(
            ErrorView::EntryUnhandledHash { path: contents, line, raw },
        ),
        raw.len() == MD5_HEX_LEN && !all_hex_digits(raw) ==> hash_of(contents, line, raw) == Err::<
            HashView,
            ErrorView,
        >(
            ErrorView::EntryInvalidHash {
                path: contents,
                line,
                raw,
                source: NumberError::InvalidDigit,
            },
        ),
        hash_of(contents, line, raw) is Ok <==> raw.len() == MD5_HEX_LEN && all_hex_digits(raw),
{
}

/// A line of fewer than five characters lacks a field, and a longer line
/// that starts with none of the five known types is of an unhandled type.
pub proof fn law_refused_line(contents: Seq<char>, line: usize, entry: Seq<char>)
    ensures
        entry.len() < MIN_LINE_LEN ==> line_entry(contents, line, entry) == Err::<
            EntryView,
            ErrorView,
        >(ErrorView::EntryMissingField { path: contents, line, raw: entry }),
        entry.len() >= MIN_LINE_LEN && !has_known_type(entry) ==> line_entry(
            contents,
            line,
            entry,
        ) == Err::<EntryView, ErrorView>(
            ErrorView::EntryUnhandledType { path: contents, line, raw: entry },
        ),
        line_entry(contents, line, entry) is Ok ==> entry.len() >= MIN_LINE_LEN && has_known_type(
            entry,
        ),
{
}

/// A `sym` line without the separator between path and destination lacks a
/// field.
pub proof fn law_sym_line_without_separator(contents: Seq<char>, line: usize, entry: Seq<char>)
    requires
        entry.len() >= MIN_LINE_LEN,
        has_type(entry, 's', 'y', 'm'),
        forall|at: int| !#[trigger] matches_at(entry.skip(FIELDS_START as int), link_separator(), at),
    ensures
        line_entry(contents, line, entry) == Err::<EntryView, ErrorView>(
            ErrorView::EntryMissingField { path: contents, line, raw: entry },
        ),
{
    lemma_first_match_from(entry.skip(FIELDS_START as int), link_separator(), 0);
}

/// What an `obj` line made of a path, a hash field and a modification time
/// field is read as, whatever the path holds: the error of the modification
/// time, with the whole line, where that is no number, else the error of the
/// hash where that is refused, else the entry with that path, digest and
/// time.
pub proof fn law_obj_line(
    contents: Seq<char>,
    line: usize,
    path: Seq<char>,
    hash: Seq<char>,
    mtime: Seq<char>,
)
    requires
        has_no_space(hash),
        has_no_space(mtime),
    ensures
        line_entry(contents, line, obj_line(path, hash, mtime)) == (match decimal_u64(mtime) {
            Err(source) => Err(
                ErrorView::EntryInvalidMTime {
                    path: contents,
                    line,
                    raw: obj_line(path, hash, mtime),
                    source,
                },
            ),
            Ok(seconds) => match hash_of(contents, line, hash) {
                Err(error) => Err(error),
                Ok(digest) => Ok(
                    EntryView {
                        path,
                        metadata: MetadataView::Regular { mtime: seconds, hash: digest },
                    },
                ),
            },
        }),
{
    let entry = obj_line(path, hash, mtime);
    let fields = entry.skip(FIELDS_START as int);
    let front = path + seq![' '] + hash;
    assert(fields =~= front + seq![' '] + mtime);
    lemma_last_space(front, mtime);
    lemma_last_space(path, hash);
}

/// In a path without a space, followed by the separator, the separator
/// first occurs after the path.
pub proof fn lemma_separator_follows_plain_path(path: Seq<char>)
    requires
        has_no_space(path),
    ensures
        first_match(path + link_separator(), link_separator()) == Some(path.len() as int),
{
    let separator = link_separator();
    let s = path + separator;
    let at = path.len() as int;
    assert(matches_at(s, separator, at)) by {
        assert(s.subrange(at, at + 4) =~= separator);
    }
    assert forall|j: int| 0 <= j < at implies !#[trigger] matches_at(s, separator, j) by {
        if matches_at(s, separator, j) {
            assert(s.subrange(j, j + 4)[0] == ' ');
            assert(path[j] == ' ');
        }
    }
    lemma_first_match_is(s, separator, 0, at);
}

/// What a `sym` line made of a path without a space, a destination and a
/// modification time field is read as: the error of the modification time,
/// with the whole line, where that is no number, else the entry with that
/// path, destination and time.
pub proof fn law_sym_line_of_plain_path(
    contents: Seq<char>,
    line: usize,
    path: Seq<char>,
    dest: Seq<char>,
    mtime: Seq<char>,
)
    requires
        has_no_space(path),
        has_no_space(mtime),
    ensures
        line_entry(contents, line, sym_line(path, dest, mtime)) == (match decimal_u64(mtime) {
            Err(source) => Err(
                ErrorView::EntryInvalidMTime {
                    path: contents,
                    line,
                    raw: sym_line(path, dest, mtime),
                    source,
                },
            ),
            Ok(seconds) => Ok(
                EntryView { path, metadata: MetadataView::Symlink { mtime: seconds, dest } },
            ),
        }),
{
    lemma_separator_follows_plain_path(path);
    law_sym_line(contents, line, path, dest, mtime);
}

/// What a `sym` line made of a path, a destination and a modification time
/// field is read as, where the separator does not occur before the end of
/// the path: the error of the modification time, with the whole line, where
/// that is no number, else the entry with that path, destination and time.
/// The destination may hold spaces, and the separator too.
pub proof fn law_sym_line(
    contents: Seq<char>,
    line: usize,
    path: Seq<char>,
    dest: Seq<char>,
    mtime: Seq<char>,
)
    requires
        first_match(path + link_separator(), link_separator()) == Some(path.len() as int),
        has_no_space(mtime),
    ensures
        line_entry(contents, line, sym_line(path, dest, mtime)) == (match decimal_u64(mtime) {
            Err(source) => Err(
                ErrorView::EntryInvalidMTime {
                    path: contents,
                    line,
                    raw: sym_line(path, dest, mtime),
                    source,
                },
            ),
            Ok(seconds) => Ok(
                EntryView { path, metadata: MetadataView::Symlink { mtime: seconds, dest } },
            ),
        }),
{
    let separator = link_separator();
    let entry = sym_line(path, dest, mtime);
    let fields = entry.skip(FIELDS_START as int);
    let front = path + separator + dest;
    assert(fields =~= front + seq![' '] + mtime);
    lemma_last_space(front, mtime);
    let short = path + separator;
    let at = path.len() as int;
    lemma_first_match_from(short, separator, 0);
    assert(separator.len() == 4);
    assert(matches_at(fields, separator, at)) by {
        assert(fields.subrange(at, at + 4) =~= separator);
    }
    assert forall|j: int| 0 <= j < at implies !#[trigger] matches_at(fields, separator, j) by {
        assert(!matches_at(short, separator, j));
        assert(fields.subrange(j, j + 4) =~= short.subrange(j, j + 4));
    }
    lemma_first_match_is(fields, separator, 0, at);
    assert(fields.take(at) =~= path);
    assert(fields.subrange(at + 4, front.len() as int) =~= dest);
}

} // verus!
