//! Audits a filesystem tree against the installed-file manifests of a package
//! database.
//!
//! The library decides; it reads nothing itself. Whoever walks the database
//! hands it the events of that walk, from which `vardbapi::get_vdb` builds
//! the table of expectations. Whoever walks the tree hands it what was
//! observed of each node: `walk::Walk` says which directory is to be listed
//! next and holds each listing against that table. `statuses` does all of
//! it at once, for walks that were made before.

use crate::digest::same_digest;
use crate::laws::lemma_audit_error_stays;
use crate::vardbapi::reader::{Event, EventView};
use crate::vardbapi::table::VarDB;
use crate::vardbapi::{
    event_views, get_vdb, result_view, table_of, text_views, FileHash, FileMetadata, HashView,
    MetadataView,
};
use vstd::prelude::*;

pub mod digest;
pub mod laws;
pub mod number;
pub mod paths;
pub mod results;
pub mod text;
pub mod vardbapi;
pub mod walk;

pub use crate::results::ResultSet;

verus! {

/// The bytes of an MD5 digest.
pub type MD5Hash = [u8; 16];

/// The roots of the trees that an audit covers.
pub type SearchPaths = Vec<String>;

/// The kind of a node on disk.
#[derive(Debug, Clone, Copy, PartialEq, Eq, Structural)]
pub enum FileType {
    FIFO,
    /// Character device
    CHR,
    DIR,
    /// Block device
    BLK,
    /// Regular file
    REG,
    /// Symbolic link
    LNK,
    SOCK,
}

/// What the metadata of a node says of its kind, question by question.
#[derive(Debug, Clone, Copy, PartialEq, Eq, Structural)]
pub struct NodeFlags {
    pub block_device: bool,
    pub char_device: bool,
    pub fifo: bool,
    pub socket: bool,
    pub dir: bool,
    pub symlink: bool,
    pub file: bool,
}

/// The kind that `flags` tell of: that of the first flag set, in the order
/// block device, character device, fifo, socket, directory, symbolic link,
/// regular file.
pub open spec fn kind_of(flags: NodeFlags) -> Option<FileType> {
    if flags.block_device {
        Some(FileType::BLK)
    } else if flags.char_device {
        Some(FileType::CHR)
    } else if flags.fifo {
        Some(FileType::FIFO)
    } else if flags.socket {
        Some(FileType::SOCK)
    } else if flags.dir {
        Some(FileType::DIR)
    } else if flags.symlink {
        Some(FileType::LNK)
    } else if flags.file {
        Some(FileType::REG)
    } else {
        None
    }
}

impl FileType {
    /// The kind of the node that `flags` describe, if they tell of one.
    pub fn from_flags(flags: NodeFlags) -> (kind: Option<FileType>)
        ensures
            kind == kind_of(flags),
    {
        if flags.block_device {
            Some(FileType::BLK)
        } else if flags.char_device {
            Some(FileType::CHR)
        } else if flags.fifo {
            Some(FileType::FIFO)
        } else if flags.socket {
            Some(FileType::SOCK)
        } else if flags.dir {
            Some(FileType::DIR)
        } else if flags.symlink {
            Some(FileType::LNK)
        } else if flags.file {
            Some(FileType::REG)
        } else {
            None
        }
    }
}

/// How a node on disk stands to what the database expects of its path.
#[derive(Debug, Clone, Copy, PartialEq, Eq, Structural)]
pub enum FileStatus {
    /// As expected.
    Aligned,
    /// The expected kind and content, another modification time.
    Touched,
    /// The expected kind, another content.
    Altered,
    /// Another kind.
    Changed,
    /// Expected, and not on disk. No audit gives this status: an audit
    /// examines what is on disk.
    Absent,
    /// On disk, and nothing is expected of it.
    Orphan,
}

/// What an audit found of one path: the kind of node that is there, and how
/// it stands to what was expected.
#[derive(Debug, Clone, PartialEq, Eq)]
pub struct ResultItem {
    pub path: String,
    pub ftype: FileType,
    pub status: FileStatus,
}

/// What a `ResultItem` stands for.
pub struct ItemView {
    pub path: Seq<char>,
    pub ftype: FileType,
    pub status: FileStatus,
}

impl View for ResultItem {
    type V = ItemView;

    open spec fn view(&self) -> ItemView {
        ItemView { path: self.path@, ftype: self.ftype, status: self.status }
    }
}

/// How an audit can fail.
#[allow(inconsistent_fields)]
#[derive(Debug, Clone, PartialEq, Eq)]
pub enum Error {
    /// The database could not be read.
    VarDBError { source: vardbapi::Error },
    /// A directory could not be listed.
    DirUnreadable { path: String, source: String },
    /// A file could not be examined, or its content could not be read.
    FileUnreadable { path: String, source: String },
}

/// What an `Error` stands for.
#[allow(inconsistent_fields)]
pub enum ErrorView {
    VarDBError { source: vardbapi::ErrorView },
    DirUnreadable { path: Seq<char>, source: Seq<char> },
    FileUnreadable { path: Seq<char>, source: Seq<char> },
}

impl View for Error {
    type V = ErrorView;

    open spec fn view(&self) -> ErrorView {
        match self {
            Error::VarDBError { source } => ErrorView::VarDBError { source: source@ },
            Error::DirUnreadable { path, source } => ErrorView::DirUnreadable {
                path: path@,
                source: source@,
            },
            Error::FileUnreadable { path, source } => ErrorView::FileUnreadable {
                path: path@,
                source: source@,
            },
        }
    }
}

/// What was observed of a node on disk.
///
/// `mtime` is the modification time in whole seconds since the epoch; that
/// of a directory is never looked at. `digest` tells of the content, where
/// it was read: its MD5 digest, or why it could not be read. The content
/// need only be read where `needs_digest` says so.
#[derive(Debug, PartialEq, Eq)]
pub struct Observation {
    pub path: String,
    pub ftype: FileType,
    pub mtime: u64,
    pub digest: Option<Result<MD5Hash, String>>,
}

/// What an `Observation` stands for.
pub struct ObservationView {
    pub path: Seq<char>,
    pub ftype: FileType,
    pub mtime: u64,
    pub digest: Option<Result<Seq<u8>, Seq<char>>>,
}

impl View for Observation {
    type V = ObservationView;

    open spec fn view(&self) -> ObservationView {
        ObservationView {
            path: self.path@,
            ftype: self.ftype,
            mtime: self.mtime,
            digest: digest_view(self.digest),
        }
    }
}

/// What the digest of an observation stands for.
pub open spec fn digest_view(digest: Option<Result<MD5Hash, String>>) -> Option<
    Result<Seq<u8>, Seq<char>>,
> {
    match digest {
        Some(Ok(digest)) => Some(Ok(digest@)),
        Some(Err(cause)) => Some(Err(cause@)),
        None => None,
    }
}

/// What each of `observations` stands for.
pub open spec fn observation_views(observations: Seq<Observation>) -> Seq<ObservationView> {
    Seq::new(observations.len(), |i: int| observations[i]@)
}

/// What an expectation stands for, where there is one.
pub open spec fn expected_view(expected: Option<&FileMetadata>) -> Option<MetadataView> {
    match expected {
        Some(metadata) => Some(metadata@),
        None => None,
    }
}

/// Whether the content of a node must be read to settle how it stands to
/// what is expected: a regular file is expected, a regular file is there,
/// and its modification time is not the recorded one.
pub open spec fn digest_needed(ftype: FileType, mtime: u64, expected: Option<MetadataView>) -> bool {
    expected matches Some(MetadataView::Regular { mtime: recorded, .. }) && ftype == FileType::REG
        && mtime != recorded
}

/// Whether the content with the digest `digest` is another than the one that
/// `hash` records.
pub open spec fn hash_differs(digest: Seq<u8>, hash: HashView) -> bool {
    hash != HashView::MD5(digest)
}

/// What a file whose content was needed, and was not read, is unreadable
/// for.
pub open spec fn unread_cause() -> Seq<char> {
    "content was not read"@
}

/// The result that gives `observed` the status `status`.
pub open spec fn settled(observed: ObservationView, status: FileStatus) -> Result<
    ItemView,
    ErrorView,
> {
    Ok(ItemView { path: observed.path, ftype: observed.ftype, status })
}

/// The result of holding `observed` against `expected`.
///
/// Only the expectation of a regular file is held against a node; with any
/// other, and with none, the node is an orphan. Where a regular file is
/// expected, a node of another kind has changed. A regular file with the
/// recorded modification time is aligned, and its content is not looked at.
/// One with another modification time is altered where its digest differs
/// from the recorded one, and only touched where it does not; without a
/// digest it is not settled, and is unreadable: for the cause that the
/// observation gives, or for not having been read.
pub open spec fn checked(observed: ObservationView, expected: Option<MetadataView>) -> Result<
    ItemView,
    ErrorView,
> {
    match expected {
        Some(MetadataView::Regular { mtime, hash }) => if observed.ftype != FileType::REG {
            settled(observed, FileStatus::Changed)
        } else if observed.mtime == mtime {
            settled(observed, FileStatus::Aligned)
        } else {
            match observed.digest {
                Some(Ok(digest)) => if hash_differs(digest, hash) {
                    settled(observed, FileStatus::Altered)
                } else {
                    settled(observed, FileStatus::Touched)
                },
                Some(Err(cause)) => Err(
                    ErrorView::FileUnreadable { path: observed.path, source: cause },
                ),
                None => Err(
                    ErrorView::FileUnreadable { path: observed.path, source: unread_cause() },
                ),
            }
        },
        _ => settled(observed, FileStatus::Orphan),
    }
}

/// What `table` expects of `path`, if anything.
pub open spec fn lookup(table: Map<Seq<char>, MetadataView>, path: Seq<char>) -> Option<
    MetadataView,
> {
    if table.contains_key(path) {
        Some(table[path])
    } else {
        None
    }
}

/// The results `start` after holding `observations`, in order, against
/// `expectations`, or the first error on the way.
///
/// A directory is passed over: only what is in it is examined. Of a path
/// that was observed more than once, the last result stands.
pub open spec fn audit_from(
    start: Map<Seq<char>, ItemView>,
    observations: Seq<ObservationView>,
    expectations: Map<Seq<char>, MetadataView>,
) -> Result<Map<Seq<char>, ItemView>, ErrorView>
    decreases observations.len(),
{
    if observations.len() == 0 {
        Ok(start)
    } else {
        let observed = observations.last();
        match audit_from(start, observations.drop_last(), expectations) {
            Err(error) => Err(error),
            Ok(results) => if observed.ftype == FileType::DIR {
                Ok(results)
            } else {
                match checked(observed, lookup(expectations, observed.path)) {
                    Err(error) => Err(error),
                    Ok(item) => Ok(results.insert(observed.path, item)),
                }
            },
        }
    }
}

/// The results of holding `observations`, in order, against `expectations`,
/// or the first error on the way.
pub open spec fn audit(
    observations: Seq<ObservationView>,
    expectations: Map<Seq<char>, MetadataView>,
) -> Result<Map<Seq<char>, ItemView>, ErrorView> {
    audit_from(Map::empty(), observations, expectations)
}

/// Whether the content of a node must be read to settle how it stands to
/// what is expected.
pub fn needs_digest(ftype: FileType, mtime: u64, expected: Option<&FileMetadata>) -> (needed: bool)
    ensures
        needed == digest_needed(ftype, mtime, expected_view(expected)),
{
    match expected {
        Some(FileMetadata::Regular { mtime: recorded, .. }) => ftype == FileType::REG && mtime
            != *recorded,
        _ => false,
    }
}

/// Whether the content of the file `path` is another than the one that
/// `hash` records, given what the observation tells of the content: fails
/// where the content could not be read, or was not read.
pub fn changed_hash(path: &str, digest: &Option<Result<MD5Hash, String>>, hash: &FileHash) -> (changed:
    Result<bool, Error>)
    ensures
        match digest_view(*digest) {
            Some(Ok(digest)) => changed == Ok::<bool, Error>(hash_differs(digest, hash@)),
            Some(Err(cause)) => changed is Err && changed->Err_0@ == (ErrorView::FileUnreadable {
                path: path@,
                source: cause,
            }),
            None => changed is Err && changed->Err_0@ == (ErrorView::FileUnreadable {
                path: path@,
                source: unread_cause(),
            }),
        },
{
    match digest {
        Some(Ok(actual)) => match hash {
            FileHash::MD5(expected) => Ok(!same_digest(expected, actual)),
        },
        Some(Err(cause)) => Err(
            Error::FileUnreadable { path: path.to_owned(), source: cause.clone() },
        ),
        None => Err(
            Error::FileUnreadable {
                path: path.to_owned(),
                source: "content was not read".to_owned(),
            },
        ),
    }
}

/// Holds what was observed of a node against what is expected of its path.
pub fn check_file(observed: &Observation, expected: Option<&FileMetadata>) -> (result: Result<
    ResultItem,
    Error,
>)
    ensures
        result_view(result) == checked(observed@, expected_view(expected)),
{
    let status = match expected {
        Some(FileMetadata::Regular { mtime, hash }) => {
            if observed.ftype != FileType::REG {
                FileStatus::Changed
            } else if observed.mtime == *mtime {
                FileStatus::Aligned
            } else {
                match changed_hash(observed.path.as_str(), &observed.digest, hash) {
                    Ok(true) => FileStatus::Altered,
                    Ok(false) => FileStatus::Touched,
                    Err(error) => {
                        return Err(error);
                    },
                }
            }
        },
        _ => FileStatus::Orphan,
    };
    Ok(ResultItem { path: observed.path.clone(), ftype: observed.ftype, status })
}

/// Holds what was observed of the entries of a directory against the table
/// of expectations `store`, and adds what comes of it to the results
/// `output`.
///
/// An entry that is a directory is passed over: the walk goes on in it. The
/// first file that cannot be settled for want of its content ends the audit
/// with an error.
pub fn check_dir(entries: &Vec<Observation>, store: &VarDB, output: ResultSet) -> (results: Result<
    ResultSet,
    Error,
>)
    ensures
        result_view(results) == audit_from(output@, observation_views(entries@), store@),
{
    let ghost start = output@;
    let ghost views = observation_views(entries@);
    let mut results = output;
    let mut i: usize = 0;
    assert(views.take(0) =~= Seq::<ObservationView>::empty());
    while i < entries.len()
        invariant
            i <= entries.len(),
            start == output@,
            views == observation_views(entries@),
            audit_from(start, views.take(i as int), store@) == Ok::<
                Map<Seq<char>, ItemView>,
                ErrorView,
            >(results@),
        decreases entries.len() - i,
    {
        let observed = &entries[i];
        proof {
            let next = views.take(i + 1);
            assert(next.drop_last() =~= views.take(i as int));
            assert(next.last() == observed@);
        }
        if observed.ftype != FileType::DIR {
            let expected = store.get(observed.path.as_str());
            match check_file(observed, expected) {
                Ok(item) => {
                    results = results.insert(item);
                },
                Err(error) => {
                    proof {
                        lemma_audit_error_stays(start, views, store@, i + 1);
                    }
                    return Err(error);
                },
            }
        }
        i += 1;
    }
    assert(views.take(entries.len() as int) =~= views);
    Ok(results)
}

/// The results of an audit of the trees under `paths`: of holding
/// `observations`, what was observed of their nodes in the order of the
/// walk, against the table that `events`, the events of a walk over the
/// database, build for those trees.
///
/// Where no table is built, the audit fails with the error of the database.
pub open spec fn audit_of(
    paths: Seq<Seq<char>>,
    events: Seq<EventView>,
    observations: Seq<ObservationView>,
) -> Result<Map<Seq<char>, ItemView>, ErrorView> {
    match table_of(events, paths) {
        Err(source) => Err(ErrorView::VarDBError { source }),
        Ok(expectations) => audit(observations, expectations),
    }
}

/// Audits the trees under `paths`: builds the table of expectations from
/// `events`, the events of a walk over the database, and holds
/// `observations`, what was observed of the nodes of the trees in the order
/// of the walk, against it.
///
/// The first error ends the audit: one of the database, or else the first
/// file that cannot be settled for want of its content.
pub fn statuses(paths: &SearchPaths, events: &Vec<Event>, observations: &Vec<Observation>) -> (results:
    Result<ResultSet, Error>)
    ensures
        result_view(results) == audit_of(
            text_views(paths@),
            event_views(events@),
            observation_views(observations@),
        ),
{
    match get_vdb(events, paths) {
        Err(source) => Err(Error::VarDBError { source }),
        Ok(expectations) => check_dir(observations, &expectations, ResultSet::new()),
    }
}

impl vstd::std_specs::convert::FromSpecImpl<vardbapi::Error> for Error {
    open spec fn obeys_from_spec() -> bool {
        true
    }

    open spec fn from_spec(source: vardbapi::Error) -> Error {
        Error::VarDBError { source }
    }
}

impl From<vardbapi::Error> for Error {
    /// The failure of an audit whose database could not be read.
    fn from(source: vardbapi::Error) -> (error: Error) {
        Error::VarDBError { source }
    }
}

} // verus!
