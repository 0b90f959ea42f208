//! The walk over the audited trees: which directory is listed next, and
//! what has been found so far.
//!
//! The directories wait in a queue. The roots come first, in the order in
//! which they were given; each directory that a listing finds is put at the
//! end.
//!
//! A listing is what was observed of the entries of a directory, in order,
//! and what interrupted it, if anything did: after the first failure to
//! read, nothing more is listed.

use crate::vardbapi::table::VarDB;
use crate::vardbapi::{result_view, text_views, MetadataView};
use crate::{
    audit_from, check_dir, observation_views, Error, ErrorView, FileType, ItemView, Observation,
    ObservationView, ResultSet, SearchPaths,
};
use vstd::prelude::*;

verus! {

/// The paths of the directories among `entries`, in order.
pub open spec fn directories(entries: Seq<ObservationView>) -> Seq<Seq<char>>
    decreases entries.len(),
{
    if entries.len() == 0 {
        Seq::empty()
    } else if entries.last().ftype == FileType::DIR {
        directories(entries.drop_last()).push(entries.last().path)
    } else {
        directories(entries.drop_last())
    }
}

/// What interrupted the listing of a directory.
#[derive(Debug, Clone, PartialEq, Eq)]
pub enum Interruption {
    /// The directory `dir` could not be listed, or an entry of it could not
    /// be read.
    Unlistable { dir: String, cause: String },
    /// The entry `path` could not be examined.
    Unexaminable { path: String, cause: String },
    /// The modification time of the entry `path` could not be had.
    Undated { path: String, cause: String },
}

/// What an `Interruption` stands for.
pub enum InterruptionView {
    Unlistable { dir: Seq<char>, cause: Seq<char> },
    Unexaminable { path: Seq<char>, cause: Seq<char> },
    Undated { path: Seq<char>, cause: Seq<char> },
}

impl View for Interruption {
    type V = InterruptionView;

    open spec fn view(&self) -> InterruptionView {
        match self {
            Interruption::Unlistable { dir, cause } => InterruptionView::Unlistable {
                dir: dir@,
                cause: cause@,
            },
            Interruption::Unexaminable { path, cause } => InterruptionView::Unexaminable {
                path: path@,
                cause: cause@,
            },
            Interruption::Undated { path, cause } => InterruptionView::Undated {
                path: path@,
                cause: cause@,
            },
        }
    }
}

/// What an interruption stands for, where there is one.
pub open spec fn interruption_view(interruption: Option<&Interruption>) -> Option<
    InterruptionView,
> {
    match interruption {
        Some(interruption) => Some(interruption@),
        None => None,
    }
}

/// The error that an interruption ends the walk with. A directory that
/// cannot be listed, and an entry that cannot be examined, are unreadable
/// directories; an entry without a modification time is an unreadable file.
pub open spec fn interruption_error(interruption: InterruptionView) -> ErrorView {
    match interruption {
        InterruptionView::Unlistable { dir, cause } => ErrorView::DirUnreadable {
            path: dir,
            source: cause,
        },
        InterruptionView::Unexaminable { path, cause } => ErrorView::DirUnreadable {
            path,
            source: cause,
        },
        InterruptionView::Undated { path, cause } => ErrorView::FileUnreadable {
            path,
            source: cause,
        },
    }
}

/// Where the walk `walk` stands after a listing: the entries are held
/// against `expectations` and added to the results, and those that are
/// directories are put at the end of the pending ones. The first error on
/// the way ends the walk: that of an entry, or else that of the
/// interruption.
pub open spec fn after_listing(
    walk: WalkView,
    entries: Seq<ObservationView>,
    interruption: Option<InterruptionView>,
    expectations: Map<Seq<char>, MetadataView>,
) -> Result<WalkView, ErrorView> {
    match audit_from(walk.results, entries, expectations) {
        Err(error) => Err(error),
        Ok(results) => match interruption {
            Some(interruption) => Err(interruption_error(interruption)),
            None => Ok(WalkView { pending: walk.pending + directories(entries), results }),
        },
    }
}

impl Interruption {
    /// The error that the interruption ends the walk with.
    pub fn error(&self) -> (error: Error)
        ensures
            error@ == interruption_error(self@),
    {
        match self {
            Interruption::Unlistable { dir, cause } => Error::DirUnreadable {
                path: dir.clone(),
                source: cause.clone(),
            },
            Interruption::Unexaminable { path, cause } => Error::DirUnreadable {
                path: path.clone(),
                source: cause.clone(),
            },
            Interruption::Undated { path, cause } => Error::FileUnreadable {
                path: path.clone(),
                source: cause.clone(),
            },
        }
    }
}

/// A walk in progress.
pub struct Walk {
    dirs: Vec<String>,
    position: usize,
    results: ResultSet,
}

/// What a `Walk` stands for: the directories that are still to be listed,
/// the next one first, and the results so far.
pub struct WalkView {
    pub pending: Seq<Seq<char>>,
    pub results: Map<Seq<char>, ItemView>,
}

impl View for Walk {
    type V = WalkView;

    closed spec fn view(&self) -> WalkView {
        WalkView {
            pending: text_views(self.dirs@).skip(self.position as int),
            results: self.results@,
        }
    }
}

impl Walk {
    /// The directories before `position` have been listed.
    #[verifier::type_invariant]
    spec fn in_range(&self) -> bool {
        self.position <= self.dirs@.len()
    }

    /// A walk at its start: the roots are to be listed, and nothing is found
    /// yet.
    pub fn new(roots: &SearchPaths) -> (walk: Self)
        ensures
            walk@ == (WalkView { pending: text_views(roots@), results: Map::empty() }),
    {
        let mut dirs: Vec<String> = Vec::new();
        let mut i: usize = 0;
        while i < roots.len()
            invariant
                i <= roots.len(),
                text_views(dirs@) == text_views(roots@).take(i as int),
            decreases roots.len() - i,
        {
            let ghost before = dirs@;
            dirs.push(roots[i].clone());
            assert(text_views(dirs@) =~= text_views(before).push(roots@[i as int]@));
            assert(text_views(roots@).take(i + 1) =~= text_views(roots@).take(i as int).push(
                roots@[i as int]@,
            ));
            i += 1;
        }
        assert(text_views(roots@).take(roots.len() as int) =~= text_views(roots@));
        let walk = Walk { dirs, position: 0, results: ResultSet::new() };
        assert(text_views(walk.dirs@).skip(0) =~= text_views(roots@));
        walk
    }

    /// The directory to list next, if one is left; it is then no longer
    /// pending.
    pub fn next(&mut self) -> (dir: Option<String>)
        ensures
            final(self)@.results == old(self)@.results,
            match dir {
                Some(dir) => old(self)@.pending.len() > 0 && dir@ == old(self)@.pending[0]
                    && final(self)@.pending == old(self)@.pending.skip(1),
                None => old(self)@.pending.len() == 0 && final(self)@.pending == old(
                    self,
                )@.pending,
            },
    {
        proof {
            use_type_invariant(&*self);
        }
        if self.position < self.dirs.len() {
            let dir = self.dirs[self.position].clone();
            let ghost all = text_views(self.dirs@);
            assert(all.skip(self.position as int)[0] == dir@);
            assert(all.skip(self.position as int).skip(1) =~= all.skip(self.position + 1));
            self.position = self.position + 1;
            Some(dir)
        } else {
            None
        }
    }

    /// Takes the listing of a directory: holds what was observed of its
    /// entries against the table of expectations `store`, adds what comes of
    /// it to the results, and puts the entries that are directories at the
    /// end of those that are to be listed.
    ///
    /// The walk ends with an error at the first file that cannot be settled
    /// for want of its content, and, where all entries are settled, at what
    /// interrupted the listing.
    pub fn listed(
        self,
        entries: &Vec<Observation>,
        interruption: Option<&Interruption>,
        store: &VarDB,
    ) -> (done: Result<Walk, Error>)
        ensures
            result_view(done) == after_listing(
                self@,
                observation_views(entries@),
                interruption_view(interruption),
                store@,
            ),
    {
        proof {
            use_type_invariant(&self);
        }
        let ghost views = observation_views(entries@);
        let ghost start = text_views(self.dirs@);
        let Walk { mut dirs, position, results } = self;
        let results = match check_dir(entries, store, results) {
            Ok(results) => results,
            Err(error) => {
                return Err(error);
            },
        };
        match interruption {
            Some(interruption) => {
                return Err(interruption.error());
            },
            None => {},
        }
        let mut i: usize = 0;
        assert(views.take(0) =~= Seq::<ObservationView>::empty());
        assert(start + directories(views.take(0)) =~= start);
        while i < entries.len()
            invariant
                i <= entries.len(),
                views == observation_views(entries@),
                position <= start.len(),
                text_views(dirs@) == start + directories(views.take(i as int)),
            decreases entries.len() - i,
        {
            let ghost before = dirs@;
            proof {
                let next = views.take(i + 1);
                assert(next.drop_last() =~= views.take(i as int));
                assert(next.last() == entries@[i as int]@);
            }
            if entries[i].ftype == FileType::DIR {
                dirs.push(entries[i].path.clone());
                assert(text_views(dirs@) =~= text_views(before).push(entries@[i as int].path@));
                assert(start + directories(views.take(i + 1)) =~= (start + directories(
                    views.take(i as int),
                )).push(entries@[i as int].path@));
            }
            i += 1;
        }
        assert(views.take(entries.len() as int) =~= views);
        let walk = Walk { dirs, position, results };
        assert(walk@.pending =~= start.skip(position as int) + directories(views));
        Ok(walk)
    }

    /// Ends the walk: the results found.
    pub fn finish(self) -> (results: ResultSet)
        ensures
            results@ == self@.results,
    {
        self.results
    }
}

} // verus!
