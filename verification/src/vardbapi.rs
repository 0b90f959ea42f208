//! The installed-file database: what each manifest line records, the errors
//! that reading it can end in, and the table of expectations built from it.

use crate::number::NumberError;
use crate::paths::{
    components, lies_under, parts_lie_under, parts_within, split_components, texts,
};
use crate::text::chars_of;
use crate::vardbapi::grammar::line_entry;
use crate::vardbapi::reader::{
    atom_is_valid, joined, manifest_name, outcomes, reader_start, state_after, step, Event,
    EventView, Outcome, Reader, ReaderView,
};
use crate::vardbapi::table::VarDB;
use crate::{MD5Hash, SearchPaths};
use vstd::prelude::*;

pub mod entry;
pub mod grammar;
pub mod laws;
pub mod reader;
pub mod table;

pub use crate::vardbapi::entry::{parse_hash, read_entry};

verus! {

/// What a result stands for: the view of its value, or the view of its error.
pub open spec fn result_view<T: View, E: View>(result: Result<T, E>) -> Result<T::V, E::V> {
    match result {
        Ok(value) => Ok(value@),
        Err(error) => Err(error@),
    }
}

/// The digest that a manifest records for a regular file, tagged with its
/// scheme.
#[derive(Debug, Clone, PartialEq, Eq)]
pub enum FileHash {
    MD5(MD5Hash),
}

/// What a `FileHash` stands for: the scheme and the digest's bytes.
pub enum HashView {
    MD5(Seq<u8>),
}

impl View for FileHash {
    type V = HashView;

    open spec fn view(&self) -> HashView {
        match self {
            FileHash::MD5(digest) => HashView::MD5(digest@),
        }
    }
}

/// What a manifest expects of a path, by the kind of node it recorded.
///
/// Only regular files and symbolic links carry a modification time, in whole
/// seconds since the epoch.
#[derive(Debug, Clone, PartialEq, Eq)]
pub enum FileMetadata {
    Regular { mtime: u64, hash: FileHash },
    Directory,
    Device,
    Fifo,
    Symlink { mtime: u64, dest: String },
}

/// What a `FileMetadata` stands for.
pub enum MetadataView {
    Regular { mtime: u64, hash: HashView },
    Directory,
    Device,
    Fifo,
    Symlink { mtime: u64, dest: Seq<char> },
}

impl View for FileMetadata {
    type V = MetadataView;

    open spec fn view(&self) -> MetadataView {
        match self {
            FileMetadata::Regular { mtime, hash } => MetadataView::Regular {
                mtime: *mtime,
                hash: hash@,
            },
            FileMetadata::Directory => MetadataView::Directory,
            FileMetadata::Device => MetadataView::Device,
            FileMetadata::Fifo => MetadataView::Fifo,
            FileMetadata::Symlink { mtime, dest } => MetadataView::Symlink {
                mtime: *mtime,
                dest: dest@,
            },
        }
    }
}

/// One manifest line: a path and what is expected of it.
#[derive(Debug, Clone, PartialEq, Eq)]
pub struct VarDBEntry {
    pub path: String,
    pub metadata: FileMetadata,
}

/// What a `VarDBEntry` stands for.
pub struct EntryView {
    pub path: Seq<char>,
    pub metadata: MetadataView,
}

impl View for VarDBEntry {
    type V = EntryView;

    open spec fn view(&self) -> EntryView {
        EntryView { path: self.path@, metadata: self.metadata@ }
    }
}

/// How reading the database can fail.
///
/// `path` is the directory or manifest file at fault. The variants for a
/// manifest line also carry the number of the line, counted from 1, and in
/// `raw` the text of the line. The two variants for a digest carry the
/// digest field there, and the variant for a conflict the path that was
/// declared twice.
#[allow(inconsistent_fields)]
#[derive(Debug, Clone, PartialEq, Eq)]
pub enum Error {
    /// The root of the database could not be listed.
    VarDBUnreadable { path: String, source: String },
    /// A category directory could not be listed.
    CategoryUnreadable { path: String, source: String },
    /// An atom directory could not be read.
    AtomUnreadable { path: String, source: String },
    /// An atom directory has a name that marks an unfinished installation, or
    /// no readable name at all.
    AtomInvalidName { path: String },
    /// A manifest file could not be opened.
    ContentsUnreadable { path: String, source: String },
    /// A line of a manifest file could not be read.
    EntryCorrupted { path: String, line: usize, source: String },
    /// A line starts with a type that is not known.
    EntryUnhandledType { path: String, line: usize, raw: String },
    /// A line lacks a field that its type requires.
    EntryMissingField { path: String, line: usize, raw: String },
    /// The modification time of a line is no number.
    EntryInvalidMTime { path: String, line: usize, raw: String, source: NumberError },
    /// The digest of a line is of a scheme that is not known.
    EntryUnhandledHash { path: String, line: usize, raw: String },
    /// The digest of a line is not made of hexadecimal digits.
    EntryInvalidHash { path: String, line: usize, raw: String, source: NumberError },
    /// The destination of a symbolic link cannot be read.
    EntryInvalidDest { path: String, line: usize, raw: String, source: NumberError },
    /// A line declares a path that an earlier line has declared already.
    EntryConflict { path: String, line: usize, raw: String },
}

/// What an `Error` stands for.
#[allow(inconsistent_fields)]
pub enum ErrorView {
    VarDBUnreadable { path: Seq<char>, source: Seq<char> },
    CategoryUnreadable { path: Seq<char>, source: Seq<char> },
    AtomUnreadable { path: Seq<char>, source: Seq<char> },
    AtomInvalidName { path: Seq<char> },
    ContentsUnreadable { path: Seq<char>, source: Seq<char> },
    EntryCorrupted { path: Seq<char>, line: usize, source: Seq<char> },
    EntryUnhandledType { path: Seq<char>, line: usize, raw: Seq<char> },
    EntryMissingField { path: Seq<char>, line: usize, raw: Seq<char> },
    EntryInvalidMTime { path: Seq<char>, line: usize, raw: Seq<char>, source: NumberError },
    EntryUnhandledHash { path: Seq<char>, line: usize, raw: Seq<char> },
    EntryInvalidHash { path: Seq<char>, line: usize, raw: Seq<char>, source: NumberError },
    EntryInvalidDest { path: Seq<char>, line: usize, raw: Seq<char>, source: NumberError },
    EntryConflict { path: Seq<char>, line: usize, raw: Seq<char> },
}

impl View for Error {
    type V = ErrorView;

    open spec fn view(&self) -> ErrorView {
        match self {
            Error::VarDBUnreadable { path, source } => ErrorView::VarDBUnreadable {
                path: path@,
                source: source@,
            },
            Error::CategoryUnreadable { path, source } => ErrorView::CategoryUnreadable {
                path: path@,
                source: source@,
            },
            Error::AtomUnreadable { path, source } => ErrorView::AtomUnreadable {
                path: path@,
                source: source@,
            },
            Error::AtomInvalidName { path } => ErrorView::AtomInvalidName { path: path@ },
            Error::ContentsUnreadable { path, source } => ErrorView::ContentsUnreadable {
                path: path@,
                source: source@,
            },
            Error::EntryCorrupted { path, line, source } => ErrorView::EntryCorrupted {
                path: path@,
                line: *line,
                source: source@,
            },
            Error::EntryUnhandledType { path, line, raw } => ErrorView::EntryUnhandledType {
                path: path@,
                line: *line,
                raw: raw@,
            },
            Error::EntryMissingField { path, line, raw } => ErrorView::EntryMissingField {
                path: path@,
                line: *line,
                raw: raw@,
            },
            Error::EntryInvalidMTime { path, line, raw, source } => ErrorView::EntryInvalidMTime {
                path: path@,
                line: *line,
                raw: raw@,
                source: *source,
            },
            Error::EntryUnhandledHash { path, line, raw } => ErrorView::EntryUnhandledHash {
                path: path@,
                line: *line,
                raw: raw@,
            },
            Error::EntryInvalidHash { path, line, raw, source } => ErrorView::EntryInvalidHash {
                path: path@,
                line: *line,
                raw: raw@,
                source: *source,
            },
            Error::EntryInvalidDest { path, line, raw, source } => ErrorView::EntryInvalidDest {
                path: path@,
                line: *line,
                raw: raw@,
                source: *source,
            },
            Error::EntryConflict { path, line, raw } => ErrorView::EntryConflict {
                path: path@,
                line: *line,
                raw: raw@,
            },
        }
    }
}

/// What each of `strings` stands for.
pub open spec fn text_views(strings: Seq<String>) -> Seq<Seq<char>> {
    Seq::new(strings.len(), |i: int| strings[i]@)
}

/// What each of `events` stands for.
pub open spec fn event_views(events: Seq<Event>) -> Seq<EventView> {
    Seq::new(events.len(), |i: int| events[i]@)
}

/// What each of `results` stands for.
pub open spec fn result_views(results: Seq<Result<VarDBEntry, Error>>) -> Seq<
    Result<EntryView, ErrorView>,
> {
    Seq::new(results.len(), |i: int| result_view(results[i]))
}

/// Whether `path` lies under one of `bases`.
pub open spec fn under_any(path: Seq<char>, bases: Seq<Seq<char>>) -> bool {
    exists|i: int| 0 <= i < bases.len() && lies_under(path, #[trigger] bases[i])
}

/// The table `table` after one more outcome, which came out of a reader that
/// now stands at `origin`.
///
/// An error ends the build. An entry that lies under none of `bases` is
/// passed over. An entry whose path the table holds already is a conflict,
/// and any other entry is recorded.
pub open spec fn recorded(
    table: Map<Seq<char>, MetadataView>,
    origin: ReaderView,
    outcome: Outcome,
    bases: Seq<Seq<char>>,
) -> Result<Map<Seq<char>, MetadataView>, ErrorView> {
    match outcome {
        None => Ok(table),
        Some(Err(error)) => Err(error),
        Some(Ok(entry)) => if !under_any(entry.path, bases) {
            Ok(table)
        } else if table.contains_key(entry.path) {
            Err(
                ErrorView::EntryConflict {
                    path: origin.contents,
                    line: origin.line,
                    raw: entry.path,
                },
            )
        } else {
            Ok(table.insert(entry.path, entry.metadata))
        },
    }
}

/// The table that `events` build for the search roots `bases`, or the first
/// error on the way.
pub open spec fn table_of(events: Seq<EventView>, bases: Seq<Seq<char>>) -> Result<
    Map<Seq<char>, MetadataView>,
    ErrorView,
>
    decreases events.len(),
{
    if events.len() == 0 {
        Ok(Map::empty())
    } else {
        match table_of(events.drop_last(), bases) {
            Err(error) => Err(error),
            Ok(table) => {
                let (origin, outcome) = step(state_after(events.drop_last()), events.last());
                recorded(table, origin, outcome, bases)
            },
        }
    }
}

/// Once a build has failed, more events do not change the error.
pub proof fn lemma_error_stays(events: Seq<EventView>, bases: Seq<Seq<char>>, n: int)
    requires
        0 <= n <= events.len(),
        table_of(events.take(n), bases) is Err,
    ensures
        table_of(events, bases) == table_of(events.take(n), bases),
    decreases events.len() - n,
{
    if n < events.len() {
        assert(events.drop_last().take(n) =~= events.take(n));
        lemma_error_stays(events.drop_last(), bases, n);
    } else {
        assert(events.take(n) =~= events);
    }
}

/// A build that goes on keeps what it has recorded: the table only grows, and
/// no expectation in it is ever replaced.
pub proof fn lemma_table_grows(events: Seq<EventView>, bases: Seq<Seq<char>>, n: int)
    requires
        0 <= n <= events.len(),
        table_of(events, bases) is Ok,
    ensures
        table_of(events.take(n), bases) is Ok,
        table_of(events.take(n), bases)->Ok_0.submap_of(table_of(events, bases)->Ok_0),
    decreases events.len() - n,
{
    if n < events.len() {
        assert(events.drop_last().take(n) =~= events.take(n));
        lemma_table_grows(events.drop_last(), bases, n);
    } else {
        assert(events.take(n) =~= events);
    }
}

/// Whether the event at position `at` of `events` gives an entry for `path`.
pub open spec fn gives_entry_for(events: Seq<EventView>, at: int, path: Seq<char>) -> bool {
    step(state_after(events.take(at)), events[at]).1 matches Some(Ok(entry)) && entry.path == path
}

/// Two entries for one path are fatal: where two of `events` give an entry
/// for the same path under the search roots, be it in one atom or in two, no
/// table is built, and so no expectation is ever replaced.
pub proof fn law_conflict_is_fatal(
    events: Seq<EventView>,
    bases: Seq<Seq<char>>,
    path: Seq<char>,
    first: int,
    second: int,
)
    requires
        0 <= first < second < events.len(),
        under_any(path, bases),
        gives_entry_for(events, first, path),
        gives_entry_for(events, second, path),
    ensures
        table_of(events, bases) is Err,
{
    let upto_second = events.take(second + 1);
    assert(upto_second.drop_last() =~= events.take(second));
    assert(upto_second.last() == events[second]);
    let before = events.take(second);
    if table_of(before, bases) is Ok {
        // The first entry is in the table when the second one comes.
        let upto_first = before.take(first + 1);
        assert(upto_first =~= events.take(first + 1));
        assert(upto_first.drop_last() =~= events.take(first));
        assert(upto_first.last() == events[first]);
        lemma_table_grows(before, bases, first + 1);
        assert(table_of(upto_first, bases)->Ok_0.contains_key(path));
        assert(table_of(before, bases)->Ok_0.contains_key(path));
    }
    assert(table_of(upto_second, bases) is Err);
    lemma_error_stays(events, bases, second + 1);
}

/// A table that is built holds what was read: no outcome of the reading is
/// an error, and each entry that lies under one of the search roots is in
/// the table, with what it expects.
pub proof fn law_table_holds_entries(events: Seq<EventView>, bases: Seq<Seq<char>>, i: int)
    requires
        table_of(events, bases) is Ok,
        0 <= i < outcomes(events).len(),
    ensures
        outcomes(events)[i] matches Ok(entry) && (under_any(entry.path, bases) ==> table_of(
            events,
            bases,
        )->Ok_0.contains_key(entry.path) && table_of(events, bases)->Ok_0[entry.path]
            == entry.metadata),
    decreases events.len(),
{
    if events.len() > 0 {
        let front = events.drop_last();
        if i < outcomes(front).len() {
            law_table_holds_entries(front, bases, i);
        }
    }
}

/// Whether `outcome` is an entry for `path`.
pub open spec fn is_entry_for(outcome: Result<EntryView, ErrorView>, path: Seq<char>) -> bool {
    outcome matches Ok(entry) && entry.path == path
}

/// A table that is built holds nothing but what was read: each of its paths
/// is that of an entry which lies under one of the search roots.
pub proof fn law_table_holds_only_entries(
    events: Seq<EventView>,
    bases: Seq<Seq<char>>,
    path: Seq<char>,
)
    requires
        table_of(events, bases) matches Ok(table) && table.contains_key(path),
    ensures
        under_any(path, bases),
        exists|i: int|
            0 <= i < outcomes(events).len() && is_entry_for(#[trigger] outcomes(events)[i], path),
    decreases events.len(),
{
    if events.len() > 0 {
        let front = events.drop_last();
        let before = table_of(front, bases)->Ok_0;
        if before.contains_key(path) {
            law_table_holds_only_entries(front, bases, path);
            let i = choose|i: int|
                0 <= i < outcomes(front).len() && is_entry_for(#[trigger] outcomes(front)[i], path);
            assert(outcomes(events)[i] == outcomes(front)[i]);
        } else {
            let last = outcomes(events).len() - 1;
            assert(is_entry_for(outcomes(events)[last], path));
        }
    }
}

/// Whether `outcome` is an entry that lies under one of `bases`.
pub open spec fn is_entry_under(outcome: Result<EntryView, ErrorView>, bases: Seq<Seq<char>>) -> bool {
    outcome matches Ok(entry) && under_any(entry.path, bases)
}

/// The number of entries among `results` that lie under one of `bases`.
pub open spec fn count_under(results: Seq<Result<EntryView, ErrorView>>, bases: Seq<Seq<char>>) -> nat
    decreases results.len(),
{
    if results.len() == 0 {
        0
    } else if is_entry_under(results.last(), bases) {
        count_under(results.drop_last(), bases) + 1
    } else {
        count_under(results.drop_last(), bases)
    }
}

/// A table that is built holds as many paths as entries were read that lie
/// under the search roots.
pub proof fn law_table_counts_entries(events: Seq<EventView>, bases: Seq<Seq<char>>)
    requires
        table_of(events, bases) is Ok,
    ensures
        table_of(events, bases)->Ok_0.dom().finite(),
        table_of(events, bases)->Ok_0.len() == count_under(outcomes(events), bases),
    decreases events.len(),
{
    if events.len() > 0 {
        let front = events.drop_last();
        law_table_counts_entries(front, bases);
        let before = table_of(front, bases)->Ok_0;
        let after = table_of(events, bases)->Ok_0;
        let outcome = step(state_after(front), events.last()).1;
        match outcome {
            Some(result) => {
                assert(outcomes(events).drop_last() =~= outcomes(front));
                if is_entry_under(result, bases) {
                    let path = result->Ok_0.path;
                    assert(after.dom() =~= before.dom().insert(path));
                } else {
                    assert(after == before);
                }
            },
            None => {},
        }
    }
}

/// The events of reading `lines`, one after the other.
pub open spec fn line_events(lines: Seq<Seq<char>>) -> Seq<EventView> {
    Seq::new(lines.len(), |i: int| EventView::Line { text: lines[i] })
}

/// The lines of a manifest file are numbered from one: after the atom
/// directory `dir` was found and `lines` were read from its manifest file
/// without an error, the reader is in that file, at the line with the number
/// of lines read, and the line `next` that follows is read under the number
/// after that.
pub proof fn law_lines_are_numbered_from_one(
    before: Seq<EventView>,
    dir: Seq<char>,
    name: Seq<char>,
    lines: Seq<Seq<char>>,
    next: Seq<char>,
)
    requires
        !state_after(before).ended,
        atom_is_valid(Some(name)),
        lines.len() < usize::MAX,
        forall|i: int|
            0 <= i < lines.len() ==> line_entry(
                joined(dir, manifest_name()),
                (i + 1) as usize,
                #[trigger] lines[i],
            ) is Ok,
    ensures
        ({
            let read = before.push(EventView::Atom { dir, name: Some(name) }) + line_events(lines);
            let contents = joined(dir, manifest_name());
            &&& state_after(read) == (ReaderView {
                contents,
                line: lines.len() as usize,
                ended: false,
            })
            &&& step(state_after(read), EventView::Line { text: next }).1 == Some(
                line_entry(contents, (lines.len() + 1) as usize, next),
            )
        }),
    decreases lines.len(),
{
    let found = before.push(EventView::Atom { dir, name: Some(name) });
    let read = found + line_events(lines);
    if lines.len() == 0 {
        assert(read =~= found);
        assert(found.drop_last() =~= before);
    } else {
        let front = lines.drop_last();
        assert(read.drop_last() =~= found + line_events(front));
        assert(read.last() == (EventView::Line { text: lines.last() }));
        assert forall|i: int| 0 <= i < front.len() implies line_entry(
            joined(dir, manifest_name()),
            (i + 1) as usize,
            #[trigger] front[i],
        ) is Ok by {
            assert(front[i] == lines[i]);
        }
        law_lines_are_numbered_from_one(before, dir, name, front, lines.last());
    }
}

/// What comes out of reading is a run of entries, which at most one error
/// ends: every outcome but the last is an entry, and the reader has ended
/// exactly when the last outcome is an error.
pub proof fn law_one_error_ends_outcomes(events: Seq<EventView>)
    ensures
        forall|i: int| 0 <= i < outcomes(events).len() - 1 ==> (#[trigger] outcomes(events)[i]) is Ok,
        state_after(events).ended <==> (outcomes(events).len() > 0 && outcomes(
            events,
        ).last() is Err),
    decreases events.len(),
{
    if events.len() > 0 {
        law_one_error_ends_outcomes(events.drop_last());
    }
}

impl VarDBEntry {
    /// Whether the entry's path lies under one of the search roots `bases`.
    pub fn in_tree(&self, bases: &SearchPaths) -> (inside: bool)
        ensures
            inside == under_any(self.path@, text_views(bases@)),
    {
        let ghost roots = text_views(bases@);
        let path = chars_of(self.path.as_str());
        let path_parts = split_components(&path);
        let mut i: usize = 0;
        while i < bases.len()
            invariant
                i <= bases.len(),
                roots == text_views(bases@),
                path@ == self.path@,
                parts_within(path_parts@, path@.len()),
                texts(path@, path_parts@) == components(path@),
                forall|j: int| 0 <= j < i ==> !lies_under(self.path@, #[trigger] roots[j]),
            decreases bases.len() - i,
        {
            let base = chars_of(bases[i].as_str());
            let base_parts = split_components(&base);
            assert(roots[i as int] == base@);
            if parts_lie_under(&path, &path_parts, &base, &base_parts) {
                return true;
            }
            i += 1;
        }
        false
    }
}

/// What reading `events` gives: where the walk starts with a root that
/// could not be listed, the error of that, and nothing else; otherwise all
/// that comes out of the events.
pub open spec fn read_outcomes(events: Seq<EventView>) -> Result<
    Seq<Result<EntryView, ErrorView>>,
    ErrorView,
> {
    if events.len() > 0 && events[0] is RootUnreadable {
        Err(
            ErrorView::VarDBUnreadable {
                path: events[0]->RootUnreadable_path,
                source: events[0]->RootUnreadable_cause,
            },
        )
    } else {
        Ok(outcomes(events))
    }
}

/// Reads a database from the events of a walk over it.
///
/// Fails where the root of the database could not be listed. Otherwise
/// gives everything that comes out, in order, up to and with the error that
/// ends the reading, if one does.
pub fn parse_vdb(events: &Vec<Event>) -> (results: Result<Vec<Result<VarDBEntry, Error>>, Error>)
    ensures
        match read_outcomes(event_views(events@)) {
            Ok(expected) => results is Ok && result_views(results->Ok_0@) == expected,
            Err(expected) => results is Err && results->Err_0@ == expected,
        },
{
    let ghost views = event_views(events@);
    if events.len() > 0 {
        match &events[0] {
            Event::RootUnreadable { path, cause } => {
                return Err(
                    Error::VarDBUnreadable { path: path.clone(), source: cause.clone() },
                );
            },
            _ => {},
        }
    }
    let mut reader = Reader::new();
    let mut results: Vec<Result<VarDBEntry, Error>> = Vec::new();
    let mut i: usize = 0;
    assert(views.take(0) =~= Seq::<EventView>::empty());
    assert(result_views(results@) =~= outcomes(views.take(0)));
    while i < events.len()
        invariant
            i <= events.len(),
            views == event_views(events@),
            reader@ == state_after(views.take(i as int)),
            result_views(results@) == outcomes(views.take(i as int)),
        decreases events.len() - i,
    {
        let ghost before = results@;
        let outcome = reader.feed(&events[i]);
        proof {
            let next = views.take(i + 1);
            assert(next.drop_last() =~= views.take(i as int));
            assert(next.last() == events@[i as int]@);
        }
        match outcome {
            Some(result) => {
                results.push(result);
                assert(result_views(results@) =~= result_views(before).push(result_view(result)));
            },
            None => {},
        }
        i += 1;
    }
    assert(views.take(events.len() as int) =~= views);
    Ok(results)
}

/// A table of expectations in the making: the reader of the events, and the
/// table of what they have recorded so far.
pub struct Loader {
    reader: Reader,
    table: VarDB,
}

/// What a `Loader` stands for.
pub struct LoaderView {
    pub reader: ReaderView,
    pub table: Map<Seq<char>, MetadataView>,
}

impl View for Loader {
    type V = LoaderView;

    closed spec fn view(&self) -> LoaderView {
        LoaderView { reader: self.reader@, table: self.table@ }
    }
}

impl Loader {
    /// A loader at its start: no event read, nothing recorded.
    pub fn new() -> (loader: Self)
        ensures
            loader@ == (LoaderView {
                reader: reader_start(),
                table: Map::empty(),
            }),
    {
        Loader { reader: Reader::new(), table: VarDB::new() }
    }

    /// Takes the next event of the walk, and records the entry that comes
    /// out of it where it lies under one of the search roots `bases`.
    ///
    /// Fails where the event amounts to an error, and where the entry's path
    /// is recorded already; the table is then left as it was.
    pub fn load(&mut self, event: &Event, bases: &SearchPaths) -> (done: Result<(), Error>)
        ensures
            final(self)@.reader == step(old(self)@.reader, event@).0,
            match recorded(
                old(self)@.table,
                step(old(self)@.reader, event@).0,
                step(old(self)@.reader, event@).1,
                text_views(bases@),
            ) {
                Ok(table) => done is Ok && final(self)@.table == table,
                Err(error) => done is Err && done->Err_0@ == error && final(self)@.table == old(
                    self,
                )@.table,
            },
    {
        match self.reader.feed(event) {
            None => Ok(()),
            Some(Err(error)) => Err(error),
            Some(Ok(entry)) => {
                if !entry.in_tree(bases) {
                    Ok(())
                } else if self.table.contains(entry.path.as_str()) {
                    Err(
                        Error::EntryConflict {
                            path: self.reader.contents().to_owned(),
                            line: self.reader.line(),
                            raw: entry.path,
                        },
                    )
                } else {
                    self.table.insert(entry);
                    Ok(())
                }
            },
        }
    }

    /// The table of what was recorded.
    pub fn finish(self) -> (vdb: VarDB)
        ensures
            vdb@ == self@.table,
    {
        self.table
    }
}

/// Builds the table of expectations from the events of a walk over a
/// database, for the search roots `bases`.
///
/// The first error ends the build: one that the walk reports, a line that
/// is refused, or a path that is declared a second time.
pub fn get_vdb(events: &Vec<Event>, bases: &SearchPaths) -> (vdb: Result<VarDB, Error>)
    ensures
        result_view(vdb) == table_of(event_views(events@), text_views(bases@)),
{
    let ghost views = event_views(events@);
    let ghost roots = text_views(bases@);
    let mut loader = Loader::new();
    let mut i: usize = 0;
    assert(views.take(0) =~= Seq::<EventView>::empty());
    while i < events.len()
        invariant
            i <= events.len(),
            views == event_views(events@),
            roots == text_views(bases@),
            loader@.reader == state_after(views.take(i as int)),
            table_of(views.take(i as int), roots) == Ok::<Map<Seq<char>, MetadataView>, ErrorView>(
                loader@.table,
            ),
        decreases events.len() - i,
    {
        proof {
            let next = views.take(i + 1);
            assert(next.drop_last() =~= views.take(i as int));
            assert(next.last() == events@[i as int]@);
        }
        match loader.load(&events[i], bases) {
            Ok(()) => {},
            Err(error) => {
                proof {
                    lemma_error_stays(views, roots, i + 1);
                }
                return Err(error);
            },
        }
        i += 1;
    }
    assert(views.take(events.len() as int) =~= views);
    Ok(loader.finish())
}

} // verus!
