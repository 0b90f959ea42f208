//! The grammar of a manifest line, as functions on its characters.
//!
//! A line is a type of three characters, one character that separates it from
//! the rest, and the fields of that type. A path may hold spaces, so the
//! fields that follow a path are taken from the right.

use crate::number::{all_hex_digits, decimal_u64, hex_bytes, NumberError};
use crate::text::{first_match, last_index_of};
use crate::vardbapi::{EntryView, ErrorView, HashView, MetadataView};
use vstd::prelude::*;

verus! {

/// The shortest line that can hold a type, its separator and a field.
pub const MIN_LINE_LEN: usize = 5;

/// Where the fields of a line start.
pub const FIELDS_START: usize = 4;

/// The number of hexadecimal digits that write an MD5 digest.
pub const MD5_HEX_LEN: usize = 32;

/// What stands between the path of a symbolic link and its destination.
pub open spec fn link_separator() -> Seq<char> {
    seq![' ', '-', '>', ' ']
}

/// The text after the last space of `s`; all of `s` where it has no space.
pub open spec fn last_field(s: Seq<char>) -> Seq<char> {
    match last_index_of(s, ' ') {
        Some(at) => s.skip(at + 1),
        None => s,
    }
}

/// The text before the last space of `s`, where it has a space.
pub open spec fn before_last_field(s: Seq<char>) -> Option<Seq<char>> {
    match last_index_of(s, ' ') {
        Some(at) => Some(s.take(at)),
        None => None,
    }
}

/// The error for a line that lacks a field.
pub open spec fn missing_field(contents: Seq<char>, line: usize, entry: Seq<char>) -> ErrorView {
    ErrorView::EntryMissingField { path: contents, line, raw: entry }
}

/// The digest that a hash field writes.
///
/// A field of 32 hexadecimal digits, in either letter case, is an MD5 digest.
/// A field of 32 characters that are not all hexadecimal digits is an invalid
/// hash, and a field of any other length is of no scheme that is handled.
pub open spec fn hash_of(contents: Seq<char>, line: usize, raw: Seq<char>) -> Result<
    HashView,
    ErrorView,
> {
    if raw.len() != MD5_HEX_LEN {
        Err(ErrorView::EntryUnhandledHash { path: contents, line, raw })
    } else if !all_hex_digits(raw) {
        Err(
            ErrorView::EntryInvalidHash {
                path: contents,
                line,
                raw,
                source: NumberError::InvalidDigit,
            },
        )
    } else {
        Ok(HashView::MD5(hex_bytes(raw)))
    }
}

/// What an `obj` line records: a path, a digest and a modification time.
///
/// The fields are taken from the right. The last one is the modification
/// time and is judged first, then the digest before it; what is left of them
/// both is the path. The error of a modification time that is no number
/// carries the whole line, and the error of a digest the digest field.
pub open spec fn obj_entry(contents: Seq<char>, line: usize, entry: Seq<char>) -> Result<
    EntryView,
    ErrorView,
> {
    let fields = entry.skip(FIELDS_START as int);
    match decimal_u64(last_field(fields)) {
        Err(source) => Err(
            ErrorView::EntryInvalidMTime { path: contents, line, raw: entry, source },
        ),
        Ok(mtime) => match before_last_field(fields) {
            None => Err(missing_field(contents, line, entry)),
            Some(front) => match hash_of(contents, line, last_field(front)) {
                Err(error) => Err(error),
                Ok(hash) => match before_last_field(front) {
                    None => Err(missing_field(contents, line, entry)),
                    Some(path) => Ok(
                        EntryView { path, metadata: MetadataView::Regular { mtime, hash } },
                    ),
                },
            },
        },
    }
}

/// What a `sym` line records: a path, a destination and a modification time.
///
/// The path ends where the separator first occurs. The modification time is
/// what follows the last space, and is judged first; where it is no number,
/// the error carries the whole line. The destination stands between the
/// separator and that space; where the space is that of the separator
/// itself, the line lacks a field.
pub open spec fn sym_entry(contents: Seq<char>, line: usize, entry: Seq<char>) -> Result<
    EntryView,
    ErrorView,
> {
    let fields = entry.skip(FIELDS_START as int);
    match first_match(fields, link_separator()) {
        None => Err(missing_field(contents, line, entry)),
        Some(at) => match decimal_u64(last_field(fields)) {
            Err(source) => Err(
                ErrorView::EntryInvalidMTime {
                    path: contents,
                    line,
                    raw: entry,
                    source,
                },
            ),
            Ok(mtime) => {
                let dest_start = at + link_separator().len();
                let dest_end = last_index_of(fields, ' ').unwrap();
                if dest_end < dest_start {
                    Err(missing_field(contents, line, entry))
                } else {
                    Ok(
                        EntryView {
                            path: fields.take(at),
                            metadata: MetadataView::Symlink {
                                mtime,
                                dest: fields.subrange(dest_start, dest_end),
                            },
                        },
                    )
                }
            },
        },
    }
}

/// What a line with a path as its only field records.
pub open spec fn path_entry(entry: Seq<char>, metadata: MetadataView) -> EntryView {
    EntryView { path: entry.skip(FIELDS_START as int), metadata }
}

/// Whether `entry` starts with the three characters `a`, `b` and `c`.
pub open spec fn has_type(entry: Seq<char>, a: char, b: char, c: char) -> bool {
    entry.len() >= 3 && entry[0] == a && entry[1] == b && entry[2] == c
}

/// Whether `entry` starts with one of the five types of line.
pub open spec fn has_known_type(entry: Seq<char>) -> bool {
    has_type(entry, 'o', 'b', 'j') || has_type(entry, 'd', 'i', 'r') || has_type(
        entry,
        'd',
        'e',
        'v',
    ) || has_type(entry, 'f', 'i', 'f') || has_type(entry, 's', 'y', 'm')
}

/// What a manifest line records, or the error that it is refused with.
///
/// `contents` is the manifest file and `line` the number of the line in it;
/// both only serve to say where an error is.
pub open spec fn line_entry(contents: Seq<char>, line: usize, entry: Seq<char>) -> Result<
    EntryView,
    ErrorView,
> {
    if entry.len() < MIN_LINE_LEN {
        Err(missing_field(contents, line, entry))
    } else if has_type(entry, 'o', 'b', 'j') {
        obj_entry(contents, line, entry)
    } else if has_type(entry, 'd', 'i', 'r') {
        Ok(path_entry(entry, MetadataView::Directory))
    } else if has_type(entry, 'd', 'e', 'v') {
        Ok(path_entry(entry, MetadataView::Device))
    } else if has_type(entry, 'f', 'i', 'f') {
        Ok(path_entry(entry, MetadataView::Fifo))
    } else if has_type(entry, 's', 'y', 'm') {
        sym_entry(contents, line, entry)
    } else {
        Err(ErrorView::EntryUnhandledType { path: contents, line, raw: entry })
    }
}

} // verus!
