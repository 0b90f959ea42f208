//! The results of an audit, by path.

use crate::{ItemView, ResultItem};
use vstd::hash_map::StringHashMap;
use vstd::prelude::*;

verus! {

/// The results of an audit: for each path that was examined, the result
/// found last.
///
/// The results are kept in the order in which their paths were first
/// examined, with an index from each path to its place.
pub struct ResultSet {
    items: Vec<ResultItem>,
    index: StringHashMap<usize>,
}

impl View for ResultSet {
    type V = Map<Seq<char>, ItemView>;

    closed spec fn view(&self) -> Map<Seq<char>, ItemView> {
        Map::new(
            |path: Seq<char>| self.index@.contains_key(path),
            |path: Seq<char>| self.items@[self.index@[path] as int]@,
        )
    }
}

impl ResultSet {
    /// The index holds the place of each result, and of nothing else.
    #[verifier::type_invariant]
    spec fn indexed(&self) -> bool {
        &&& forall|i: int|
            0 <= i < self.items@.len() ==> self.index@.contains_key(
                (#[trigger] self.items@[i]).path@,
            ) && self.index@[self.items@[i].path@] == i
        &&& forall|path: Seq<char>| #[trigger]
            self.index@.contains_key(path) ==> self.index@[path] < self.items@.len()
                && self.items@[self.index@[path] as int].path@ == path
    }

    /// No results.
    pub fn new() -> (results: Self)
        ensures
            results@ == Map::<Seq<char>, ItemView>::empty(),
    {
        let results = ResultSet { items: Vec::new(), index: StringHashMap::new() };
        assert(results@ =~= Map::<Seq<char>, ItemView>::empty());
        results
    }

    /// The results with `item` as the result of its path, in place of what
    /// was found of that path before.
    pub fn insert(self, item: ResultItem) -> (results: Self)
        ensures
            results@ == self@.insert(item.path@, item@),
    {
        proof {
            use_type_invariant(&self);
        }
        let ghost before = self@;
        let ghost path = item.path@;
        let ghost view = item@;
        let ResultSet { mut items, mut index } = self;
        let place: Option<usize> = match index.get(item.path.as_str()) {
            Some(place) => Some(*place),
            None => None,
        };
        match place {
            Some(place) => {
                items.set(place, item);
            },
            None => {
                index.insert(item.path.clone(), items.len());
                items.push(item);
            },
        }
        let results = ResultSet { items, index };
        assert(results@ =~= before.insert(path, view));
        results
    }

    /// The result found of `path`, if it was examined.
    pub fn get(&self, path: &str) -> (found: Option<&ResultItem>)
        ensures
            match found {
                Some(item) => self@.contains_key(path@) && self@[path@] == item@,
                None => !self@.contains_key(path@),
            },
    {
        proof {
            use_type_invariant(self);
        }
        match self.index.get(path) {
            Some(place) => Some(&self.items[*place]),
            None => None,
        }
    }

    /// The results, one for each path that was examined, in the order in
    /// which the paths were first examined.
    pub fn items(&self) -> (items: &Vec<ResultItem>)
        ensures
            forall|i: int|
                0 <= i < items@.len() ==> self@.contains_key((#[trigger] items@[i]).path@)
                    && self@[items@[i].path@] == items@[i]@,
            forall|path: Seq<char>| #[trigger]
                self@.contains_key(path) ==> exists|i: int|
                    0 <= i < items@.len() && (#[trigger] items@[i]).path@ == path,
            forall|i: int, j: int|
                0 <= i < j < items@.len() ==> (#[trigger] items@[i]).path@ != (
                #[trigger] items@[j]).path@,
    {
        proof {
            use_type_invariant(self);
            assert forall|path: Seq<char>| #[trigger] self@.contains_key(path) implies exists|
                i: int,
            |
                0 <= i < self.items@.len() && (#[trigger] self.items@[i]).path@ == path by {
                let place = self.index@[path] as int;
                assert(self.items@[place].path@ == path);
            }
        }
        &self.items
    }
}

} // verus!
