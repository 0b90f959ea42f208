//! Reading manifest lines.

use crate::number::{
    all_hex_digits, hex_byte, hex_bytes, hex_digit, parse_hex_digit, parse_u64, NumberError,
};
use crate::text::{
    chars_of, find_chars, last_index_of, lemma_first_match_from, lemma_last_index_of, matches_at,
    rfind_char, substring,
};
use crate::vardbapi::grammar::{
    before_last_field, hash_of, last_field, line_entry, link_separator, missing_field, obj_entry,
    sym_entry, FIELDS_START, MD5_HEX_LEN, MIN_LINE_LEN,
};
use crate::vardbapi::{result_view, Error, FileHash, FileMetadata, VarDBEntry};
use crate::MD5Hash;
use vstd::prelude::*;

verus! {

/// Reads the 32 hexadecimal digits that start at `from` as the 16 bytes of an
/// MD5 digest.
fn parse_md5(chars: &Vec<char>, from: usize) -> (digest: Result<MD5Hash, NumberError>)
    requires
        from + MD5_HEX_LEN <= chars.len(),
    ensures
        ({
            let field = chars@.subrange(from as int, from + MD5_HEX_LEN);
            match digest {
                Ok(bytes) => all_hex_digits(field) && bytes@ == hex_bytes(field),
                Err(source) => !all_hex_digits(field) && source == NumberError::InvalidDigit,
            }
        }),
{
    let ghost field = chars@.subrange(from as int, from + MD5_HEX_LEN);
    let mut digest: MD5Hash = [0u8;16];
    let mut i: usize = 0;
    while i < 16
        invariant
            i <= 16,
            from + MD5_HEX_LEN <= chars.len(),
            field == chars@.subrange(from as int, from + MD5_HEX_LEN),
            forall|j: int| 0 <= j < 2 * i ==> hex_digit(#[trigger] field[j]) is Some,
            forall|j: int| 0 <= j < i ==> digest@[j] == hex_byte(field[2 * j], field[2 * j + 1]),
        decreases 16 - i,
    {
        let high = parse_hex_digit(chars[from + 2 * i]);
        let low = parse_hex_digit(chars[from + 2 * i + 1]);
        assert(field[2 * i] == chars@[from + 2 * i]);
        assert(field[2 * i + 1] == chars@[from + 2 * i + 1]);
        match (high, low) {
            (Some(h), Some(l)) => {
                digest[i] = h * 16 + l;
            },
            _ => {
                assert(hex_digit(field[2 * i]) is None || hex_digit(field[2 * i + 1]) is None);
                return Err(NumberError::InvalidDigit);
            },
        }
        i += 1;
    }
    assert(digest@ =~= hex_bytes(field));
    Ok(digest)
}

/// Reads the hash field that `chars` holds from `from` up to `to`.
fn parse_hash_field(
    contents: &str,
    line: usize,
    entry: &str,
    chars: &Vec<char>,
    from: usize,
    to: usize,
) -> (hash: Result<FileHash, Error>)
    requires
        chars@ == entry@,
        from <= to <= chars.len(),
    ensures
        result_view(hash) == hash_of(contents@, line, entry@.subrange(from as int, to as int)),
{
    if to - from != MD5_HEX_LEN {
        return Err(
            Error::EntryUnhandledHash {
                path: contents.to_owned(),
                line,
                raw: substring(entry, from, to),
            },
        );
    }
    match parse_md5(chars, from) {
        Ok(digest) => Ok(FileHash::MD5(digest)),
        Err(source) => Err(
            Error::EntryInvalidHash {
                path: contents.to_owned(),
                line,
                raw: substring(entry, from, to),
                source,
            },
        ),
    }
}

/// Reads a hash field.
///
/// `contents` and `line` say where the field stands, for the error.
pub fn parse_hash(contents: &str, line: usize, raw_hash: &str) -> (hash: Result<FileHash, Error>)
    ensures
        result_view(hash) == hash_of(contents@, line, raw_hash@),
{
    let chars = chars_of(raw_hash);
    assert(raw_hash@.subrange(0, chars.len() as int) =~= raw_hash@);
    parse_hash_field(contents, line, raw_hash, &chars, 0, chars.len())
}

/// The error for a line that lacks a field.
fn missing(contents: &str, line: usize, entry: &str) -> (error: Error)
    ensures
        error@ == missing_field(contents@, line, entry@),
{
    Error::EntryMissingField { path: contents.to_owned(), line, raw: entry.to_owned() }
}

/// Finds the last field of the characters of `chars` from `from` up to `to`:
/// where it starts, and where what stands before its space ends, if there is
/// a space.
fn split_last_field(chars: &Vec<char>, from: usize, to: usize) -> (cut: (usize, Option<usize>))
    requires
        from <= to <= chars.len(),
    ensures
        from <= cut.0 <= to,
        last_field(chars@.subrange(from as int, to as int)) == chars@.subrange(
            cut.0 as int,
            to as int,
        ),
        match cut.1 {
            Some(end) => from <= end < to && cut.0 == end + 1 && before_last_field(
                chars@.subrange(from as int, to as int),
            ) == Some(chars@.subrange(from as int, end as int)) && last_index_of(
                chars@.subrange(from as int, to as int),
                ' ',
            ) == Some(end - from),
            None => before_last_field(chars@.subrange(from as int, to as int)) is None
                && cut.0 == from,
        },
{
    let ghost s = chars@.subrange(from as int, to as int);
    proof {
        lemma_last_index_of(s, ' ');
    }
    match rfind_char(chars, from, to, ' ') {
        Some(at) => {
            assert(s.skip(at + 1) =~= chars@.subrange(from + at + 1, to as int));
            assert(s.take(at as int) =~= chars@.subrange(from as int, from + at));
            (from + at + 1, Some(from + at))
        },
        None => (from, None),
    }
}

/// Reads an `obj` line.
fn parse_obj(contents: &str, line: usize, entry: &str, chars: &Vec<char>) -> (parsed: Result<
    VarDBEntry,
    Error,
>)
    requires
        chars@ == entry@,
        chars.len() >= MIN_LINE_LEN,
    ensures
        result_view(parsed) == obj_entry(contents@, line, entry@),
{
    let end: usize = chars.len();
    let ghost fields = entry@.skip(FIELDS_START as int);
    assert(fields =~= chars@.subrange(FIELDS_START as int, end as int));
    let (mtime_start, front_end) = split_last_field(chars, FIELDS_START, end);
    let mtime = match parse_u64(chars, mtime_start, end) {
        Ok(mtime) => mtime,
        Err(source) => {
            return Err(
                Error::EntryInvalidMTime {
                    path: contents.to_owned(),
                    line,
                    raw: entry.to_owned(),
                    source,
                },
            );
        },
    };
    let front_end = match front_end {
        Some(front_end) => front_end,
        None => {
            return Err(missing(contents, line, entry));
        },
    };
    let (hash_start, path_end) = split_last_field(chars, FIELDS_START, front_end);
    let hash = match parse_hash_field(contents, line, entry, chars, hash_start, front_end) {
        Ok(hash) => hash,
        Err(error) => {
            return Err(error);
        },
    };
    let path_end = match path_end {
        Some(path_end) => path_end,
        None => {
            return Err(missing(contents, line, entry));
        },
    };
    Ok(
        VarDBEntry {
            path: substring(entry, FIELDS_START, path_end),
            metadata: FileMetadata::Regular { mtime, hash },
        },
    )
}

/// The separator of a `sym` line, as characters.
fn link_separator_chars() -> (separator: Vec<char>)
    ensures
        separator@ == link_separator(),
{
    let mut separator: Vec<char> = Vec::new();
    separator.push(' ');
    separator.push('-');
    separator.push('>');
    separator.push(' ');
    assert(separator@ =~= link_separator());
    separator
}

/// Reads a `sym` line.
fn parse_sym(contents: &str, line: usize, entry: &str, chars: &Vec<char>) -> (parsed: Result<
    VarDBEntry,
    Error,
>)
    requires
        chars@ == entry@,
        chars.len() >= MIN_LINE_LEN,
    ensures
        result_view(parsed) == sym_entry(contents@, line, entry@),
{
    let end: usize = chars.len();
    let ghost fields = entry@.skip(FIELDS_START as int);
    assert(fields =~= chars@.subrange(FIELDS_START as int, end as int));
    let separator = link_separator_chars();
    let at = match find_chars(chars, FIELDS_START, end, &separator) {
        Some(at) => at,
        None => {
            return Err(missing(contents, line, entry));
        },
    };
    proof {
        lemma_first_match_from(fields, link_separator(), 0);
        lemma_last_index_of(fields, ' ');
        assert(matches_at(fields, link_separator(), at as int));
        assert(fields.subrange(at as int, at + 4)[3] == ' ');
        assert(fields[at + 3] == ' ');
    }
    let (mtime_start, dest_end) = split_last_field(chars, FIELDS_START, end);
    let mtime = match parse_u64(chars, mtime_start, end) {
        Ok(mtime) => mtime,
        Err(source) => {
            return Err(
                Error::EntryInvalidMTime {
                    path: contents.to_owned(),
                    line,
                    raw: entry.to_owned(),
                    source,
                },
            );
        },
    };
    let dest_end = match dest_end {
        Some(dest_end) => dest_end,
        None => {
            return Err(missing(contents, line, entry));
        },
    };
    let path_end: usize = FIELDS_START + at;
    let dest_start: usize = path_end + separator.len();
    if dest_end < dest_start {
        return Err(missing(contents, line, entry));
    }
    assert(fields.take(at as int) =~= entry@.subrange(FIELDS_START as int, path_end as int));
    assert(fields.subrange(at + 4, dest_end - FIELDS_START) =~= entry@.subrange(
        dest_start as int,
        dest_end as int,
    ));
    Ok(
        VarDBEntry {
            path: substring(entry, FIELDS_START, path_end),
            metadata: FileMetadata::Symlink { mtime, dest: substring(entry, dest_start, dest_end) },
        },
    )
}

/// Reads a line that holds a path and nothing else.
fn parse_path(entry: &str, chars: &Vec<char>, metadata: FileMetadata) -> (parsed: VarDBEntry)
    requires
        chars@ == entry@,
        chars.len() >= MIN_LINE_LEN,
    ensures
        parsed.path@ == entry@.skip(FIELDS_START as int),
        parsed.metadata == metadata,
{
    assert(entry@.skip(FIELDS_START as int) =~= entry@.subrange(
        FIELDS_START as int,
        chars.len() as int,
    ));
    VarDBEntry { path: substring(entry, FIELDS_START, chars.len()), metadata }
}

/// Reads one line of a manifest file.
///
/// `contents` is the manifest file and `line` the number of the line in it;
/// they go into the error where the line is refused.
pub fn read_entry(contents: &str, line: usize, entry: &str) -> (parsed: Result<VarDBEntry, Error>)
    ensures
        result_view(parsed) == line_entry(contents@, line, entry@),
{
    let chars = chars_of(entry);
    if chars.len() < MIN_LINE_LEN {
        return Err(missing(contents, line, entry));
    }
    let a = chars[0];
    let b = chars[1];
    let c = chars[2];
    if a == 'o' && b == 'b' && c == 'j' {
        parse_obj(contents, line, entry, &chars)
    } else if a == 'd' && b == 'i' && c == 'r' {
        Ok(parse_path(entry, &chars, FileMetadata::Directory))
    } else if a == 'd' && b == 'e' && c == 'v' {
        Ok(parse_path(entry, &chars, FileMetadata::Device))
    } else if a == 'f' && b == 'i' && c == 'f' {
        Ok(parse_path(entry, &chars, FileMetadata::Fifo))
    } else if a == 's' && b == 'y' && c == 'm' {
        parse_sym(contents, line, entry, &chars)
    } else {
        Err(
            Error::EntryUnhandledType {
                path: contents.to_owned(),
                line,
                raw: entry.to_owned(),
            },
        )
    }
}

} // verus!
