//! Reading a database as a run of events.
//!
//! Whoever walks the database on disk reports what it finds, in order: an
//! atom directory, a line of its manifest file, or what could not be read.
//! The reader turns each report into the entry that it records or the error
//! that it amounts to. After the first error the reader has ended, and gives
//! nothing more.

use crate::text::{chars_of, range_equals};
use crate::vardbapi::entry::read_entry;
use crate::vardbapi::grammar::line_entry;
use crate::vardbapi::{result_view, EntryView, Error, ErrorView, VarDBEntry};
use vstd::prelude::*;
use vstd::string::StringExecFns;

verus! {

/// What was found while walking a database.
#[derive(Debug, Clone, PartialEq, Eq)]
pub enum Event {
    /// The root of the database could not be listed.
    RootUnreadable { path: String, cause: String },
    /// An entry of the root of the database could not be read.
    RootEntryUnreadable { path: String, cause: String },
    /// A category directory, or an entry of it, could not be read.
    CategoryUnreadable { path: String, cause: String },
    /// The directory `dir` of an atom was found. `name` is the name of the
    /// directory, where it is valid Unicode.
    Atom { dir: String, name: Option<String> },
    /// The manifest file of the atom found last could not be opened.
    ContentsUnreadable { cause: String },
    /// The next line of the manifest file of the atom found last.
    Line { text: String },
    /// The next line of that file could not be read.
    LineUnreadable { cause: String },
}

/// What an `Event` stands for.
pub enum EventView {
    RootUnreadable { path: Seq<char>, cause: Seq<char> },
    RootEntryUnreadable { path: Seq<char>, cause: Seq<char> },
    CategoryUnreadable { path: Seq<char>, cause: Seq<char> },
    Atom { dir: Seq<char>, name: Option<Seq<char>> },
    ContentsUnreadable { cause: Seq<char> },
    Line { text: Seq<char> },
    LineUnreadable { cause: Seq<char> },
}

impl View for Event {
    type V = EventView;

    open spec fn view(&self) -> EventView {
        match self {
            Event::RootUnreadable { path, cause } => EventView::RootUnreadable {
                path: path@,
                cause: cause@,
            },
            Event::RootEntryUnreadable { path, cause } => EventView::RootEntryUnreadable {
                path: path@,
                cause: cause@,
            },
            Event::CategoryUnreadable { path, cause } => EventView::CategoryUnreadable {
                path: path@,
                cause: cause@,
            },
            Event::Atom { dir, name } => EventView::Atom {
                dir: dir@,
                name: match name {
                    Some(name) => Some(name@),
                    None => None,
                },
            },
            Event::ContentsUnreadable { cause } => EventView::ContentsUnreadable { cause: cause@ },
            Event::Line { text } => EventView::Line { text: text@ },
            Event::LineUnreadable { cause } => EventView::LineUnreadable { cause: cause@ },
        }
    }
}

/// What an atom directory's name starts with while the atom is being
/// installed.
pub open spec fn merging_marker() -> Seq<char> {
    "-MERGING-"@
}

/// The name of an atom's manifest file.
pub open spec fn manifest_name() -> Seq<char> {
    "CONTENTS"@
}

/// Whether an atom directory may be read: it has a name, and the name does
/// not mark an unfinished installation.
pub open spec fn atom_is_valid(name: Option<Seq<char>>) -> bool {
    match name {
        Some(name) => !merging_marker().is_prefix_of(name),
        None => false,
    }
}

/// The path of the file `name` in the directory `dir`.
pub open spec fn joined(dir: Seq<char>, name: Seq<char>) -> Seq<char> {
    if dir.len() == 0 || dir.last() == '/' {
        dir + name
    } else {
        dir + seq!['/'] + name
    }
}

/// The number of the line after line `line`. No line has a number above
/// `usize::MAX`.
pub open spec fn line_after(line: usize) -> usize {
    if line < usize::MAX {
        (line + 1) as usize
    } else {
        line
    }
}

/// Where a reader stands: the manifest file it is in, the number of the line
/// read last, and whether it has ended.
pub struct ReaderView {
    pub contents: Seq<char>,
    pub line: usize,
    pub ended: bool,
}

/// What comes out of one event: an entry, an error, or nothing.
pub type Outcome = Option<Result<EntryView, ErrorView>>;

/// A reader at its start: in no file, before any line.
pub open spec fn reader_start() -> ReaderView {
    ReaderView { contents: Seq::empty(), line: 0, ended: false }
}

/// What an event does to a reader, and what comes out of it.
pub open spec fn step(state: ReaderView, event: EventView) -> (ReaderView, Outcome) {
    let ended = ReaderView { ended: true, ..state };
    if state.ended {
        (state, None)
    } else {
        match event {
            EventView::RootUnreadable { path, cause } => (
                ended,
                Some(Err(ErrorView::VarDBUnreadable { path, source: cause })),
            ),
            EventView::RootEntryUnreadable { path, cause } => (
                ended,
                Some(Err(ErrorView::VarDBUnreadable { path, source: cause })),
            ),
            EventView::CategoryUnreadable { path, cause } => (
                ended,
                Some(Err(ErrorView::CategoryUnreadable { path, source: cause })),
            ),
            EventView::Atom { dir, name } => if atom_is_valid(name) {
                (
                    ReaderView { contents: joined(dir, manifest_name()), line: 0, ended: false },
                    None,
                )
            } else {
                (ended, Some(Err(ErrorView::AtomInvalidName { path: dir })))
            },
            EventView::ContentsUnreadable { cause } => (
                ended,
                Some(Err(ErrorView::ContentsUnreadable { path: state.contents, source: cause })),
            ),
            EventView::Line { text } => {
                let line = line_after(state.line);
                let parsed = line_entry(state.contents, line, text);
                (ReaderView { line, ended: parsed is Err, ..state }, Some(parsed))
            },
            EventView::LineUnreadable { cause } => {
                let line = line_after(state.line);
                (
                    ReaderView { line, ended: true, ..state },
                    Some(
                        Err(
                            ErrorView::EntryCorrupted {
                                path: state.contents,
                                line,
                                source: cause,
                            },
                        ),
                    ),
                )
            },
        }
    }
}

/// Where a reader stands after `events`.
pub open spec fn state_after(events: Seq<EventView>) -> ReaderView
    decreases events.len(),
{
    if events.len() == 0 {
        reader_start()
    } else {
        step(state_after(events.drop_last()), events.last()).0
    }
}

/// What comes out of `events`, in order: the entries, and after them the
/// error that ended the reading, if one did.
pub open spec fn outcomes(events: Seq<EventView>) -> Seq<Result<EntryView, ErrorView>>
    decreases events.len(),
{
    if events.len() == 0 {
        Seq::empty()
    } else {
        let before = outcomes(events.drop_last());
        match step(state_after(events.drop_last()), events.last()).1 {
            Some(outcome) => before.push(outcome),
            None => before,
        }
    }
}

/// What an outcome stands for.
pub open spec fn outcome_view(outcome: Option<Result<VarDBEntry, Error>>) -> Outcome {
    match outcome {
        Some(result) => Some(result_view(result)),
        None => None,
    }
}

/// Whether the name of an atom directory marks an unfinished installation.
fn has_merging_marker(name: &str) -> (marked: bool)
    ensures
        marked == merging_marker().is_prefix_of(name@),
{
    let chars = chars_of(name);
    let marker = chars_of("-MERGING-");
    if marker.len() > chars.len() {
        return false;
    }
    assert(name@.subrange(0, marker.len() as int) == chars@.subrange(0, marker.len() as int));
    range_equals(&chars, 0, marker.len(), &marker)
}

/// The path of the file `name` in the directory `dir`.
fn join(dir: &str, name: &str) -> (path: String)
    ensures
        path@ == joined(dir@, name@),
{
    let chars = chars_of(dir);
    let mut path = dir.to_owned();
    if chars.len() > 0 && chars[chars.len() - 1] != '/' {
        path.append("/");
        proof {
            reveal_strlit("/");
            assert("/"@ =~= seq!['/']);
        }
    }
    path.append(name);
    path
}

/// The number of the line after line `line`.
fn next_line(line: usize) -> (next: usize)
    ensures
        next == line_after(line),
{
    if line < usize::MAX {
        line + 1
    } else {
        line
    }
}

/// A reader of database events.
pub struct Reader {
    contents: String,
    line: usize,
    ended: bool,
}

impl View for Reader {
    type V = ReaderView;

    closed spec fn view(&self) -> ReaderView {
        ReaderView { contents: self.contents@, line: self.line, ended: self.ended }
    }
}

impl Reader {
    /// A reader at its start.
    pub fn new() -> (reader: Self)
        ensures
            reader@ == reader_start(),
    {
        Reader { contents: String::new(), line: 0, ended: false }
    }

    /// Whether the reader has ended on an error.
    pub fn has_ended(&self) -> (ended: bool)
        ensures
            ended == self@.ended,
    {
        self.ended
    }

    /// The manifest file that the reader is in.
    pub fn contents(&self) -> (contents: &str)
        ensures
            contents@ == self@.contents,
    {
        self.contents.as_str()
    }

    /// The number of the line that the reader has read last.
    pub fn line(&self) -> (line: usize)
        ensures
            line == self@.line,
    {
        self.line
    }

    /// Takes the next event, and gives what comes out of it.
    pub fn feed(&mut self, event: &Event) -> (outcome: Option<Result<VarDBEntry, Error>>)
        ensures
            (final(self)@, outcome_view(outcome)) == step(old(self)@, event@),
    {
        if self.ended {
            return None;
        }
        match event {
            Event::RootUnreadable { path, cause } => {
                self.ended = true;
                Some(Err(Error::VarDBUnreadable { path: path.clone(), source: cause.clone() }))
            },
            Event::RootEntryUnreadable { path, cause } => {
                self.ended = true;
                Some(Err(Error::VarDBUnreadable { path: path.clone(), source: cause.clone() }))
            },
            Event::CategoryUnreadable { path, cause } => {
                self.ended = true;
                Some(Err(Error::CategoryUnreadable { path: path.clone(), source: cause.clone() }))
            },
            Event::Atom { dir, name } => {
                let valid = match name {
                    Some(name) => !has_merging_marker(name.as_str()),
                    None => false,
                };
                if valid {
                    self.contents = join(dir.as_str(), "CONTENTS");
                    self.line = 0;
                    None
                } else {
                    self.ended = true;
                    Some(Err(Error::AtomInvalidName { path: dir.clone() }))
                }
            },
            Event::ContentsUnreadable { cause } => {
                self.ended = true;
                Some(
                    Err(
                        Error::ContentsUnreadable {
                            path: self.contents.clone(),
                            source: cause.clone(),
                        },
                    ),
                )
            },
            Event::Line { text } => {
                let line = next_line(self.line);
                self.line = line;
                let parsed = read_entry(self.contents.as_str(), line, text.as_str());
                match parsed {
                    Ok(entry) => Some(Ok(entry)),
                    Err(error) => {
                        self.ended = true;
                        Some(Err(error))
                    },
                }
            },
            Event::LineUnreadable { cause } => {
                let line = next_line(self.line);
                self.line = line;
                self.ended = true;
                Some(
                    Err(
                        Error::EntryCorrupted {
                            path: self.contents.clone(),
                            line,
                            source: cause.clone(),
                        },
                    ),
                )
            },
        }
    }
}

} // verus!
