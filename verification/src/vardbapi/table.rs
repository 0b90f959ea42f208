//! The table of expectations: what the database expects of each path.

use crate::vardbapi::{FileMetadata, MetadataView, VarDBEntry};
use vstd::hash_map::StringHashMap;
use vstd::prelude::*;

verus! {

/// What the database expects of each path that it declares.
///
/// A path has one expectation: the table never replaces one.
pub struct VarDB {
    table: StringHashMap<FileMetadata>,
}

impl View for VarDB {
    type V = Map<Seq<char>, MetadataView>;

    closed spec fn view(&self) -> Map<Seq<char>, MetadataView> {
        Map::new(|path: Seq<char>| self.table@.contains_key(path), |path: Seq<char>| self.table@[path]@)
    }
}

impl VarDB {
    /// A table that expects nothing.
    pub fn new() -> (vdb: Self)
        ensures
            vdb@ == Map::<Seq<char>, MetadataView>::empty(),
    {
        let vdb = VarDB { table: StringHashMap::new() };
        assert(vdb@ =~= Map::<Seq<char>, MetadataView>::empty());
        vdb
    }

    /// The number of paths of which the table expects something.
    pub fn len(&self) -> (n: usize)
        ensures
            n == self@.len(),
    {
        assert(self@.dom() =~= self.table@.dom());
        self.table.len()
    }

    /// What is expected of `path`, if anything.
    pub fn get(&self, path: &str) -> (expected: Option<&FileMetadata>)
        ensures
            match expected {
                Some(metadata) => self@.contains_key(path@) && self@[path@] == metadata@,
                None => !self@.contains_key(path@),
            },
    {
        self.table.get(path)
    }

    /// Whether the table expects something of `path`.
    pub fn contains(&self, path: &str) -> (known: bool)
        ensures
            known == self@.contains_key(path@),
    {
        self.table.contains_key(path)
    }

    /// Records what `entry` expects of its path, unless the table expects
    /// something of that path already. Says whether the entry was recorded.
    pub fn insert(&mut self, entry: VarDBEntry) -> (recorded: bool)
        ensures
            recorded == !old(self)@.contains_key(entry.path@),
            recorded ==> final(self)@ == old(self)@.insert(entry.path@, entry.metadata@),
            !recorded ==> final(self)@ == old(self)@,
    {
        if self.table.contains_key(entry.path.as_str()) {
            return false;
        }
        let ghost before = self@;
        let ghost path = entry.path@;
        let ghost metadata = entry.metadata@;
        self.table.insert(entry.path, entry.metadata);
        assert(self@ =~= before.insert(path, metadata));
        true
    }
}

} // verus!
