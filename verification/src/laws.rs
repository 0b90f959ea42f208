//! What holds of every audit.

use crate::vardbapi::{HashView, MetadataView};
use crate::{
    audit, audit_from, checked, digest_needed, hash_differs, lookup, settled, unread_cause,
    ErrorView, FileStatus, FileType, ItemView, ObservationView,
};
use vstd::prelude::*;

verus! {

/// A regular file with the modification time that the database records is
/// aligned, whatever its content: the content is not looked at.
pub proof fn law_unmodified_is_aligned(observed: ObservationView, hash: HashView)
    requires
        observed.ftype == FileType::REG,
    ensures
        !digest_needed(
            observed.ftype,
            observed.mtime,
            Some(MetadataView::Regular { mtime: observed.mtime, hash }),
        ),
        checked(observed, Some(MetadataView::Regular { mtime: observed.mtime, hash })) == settled(
            observed,
            FileStatus::Aligned,
        ),
{
}

/// A regular file with another modification time than the recorded one, and
/// with the recorded digest, is touched, and not altered.
pub proof fn law_same_content_is_touched(observed: ObservationView, recorded: u64, digest: Seq<u8>)
    requires
        observed.ftype == FileType::REG,
        observed.mtime != recorded,
        observed.digest == Some(Ok::<Seq<u8>, Seq<char>>(digest)),
    ensures
        checked(
            observed,
            Some(MetadataView::Regular { mtime: recorded, hash: HashView::MD5(digest) }),
        ) == settled(observed, FileStatus::Touched),
{
}

/// A regular file with another modification time than the recorded one is
/// never settled without its digest. With a digest that differs from the
/// recorded one it is altered, and without a digest the audit fails: the
/// file is unreadable.
pub proof fn law_other_content_is_altered(
    observed: ObservationView,
    recorded: u64,
    hash: HashView,
)
    requires
        observed.ftype == FileType::REG,
        observed.mtime != recorded,
    ensures
        digest_needed(
            observed.ftype,
            observed.mtime,
            Some(MetadataView::Regular { mtime: recorded, hash }),
        ),
        observed.digest matches Some(Ok(digest)) && hash_differs(digest, hash) ==> checked(
            observed,
            Some(MetadataView::Regular { mtime: recorded, hash }),
        ) == settled(observed, FileStatus::Altered),
        observed.digest matches Some(Err(cause)) ==> checked(
            observed,
            Some(MetadataView::Regular { mtime: recorded, hash }),
        ) == Err::<ItemView, ErrorView>(
            ErrorView::FileUnreadable { path: observed.path, source: cause },
        ),
        observed.digest is None ==> checked(
            observed,
            Some(MetadataView::Regular { mtime: recorded, hash }),
        ) == Err::<ItemView, ErrorView>(
            ErrorView::FileUnreadable { path: observed.path, source: unread_cause() },
        ),
{
}

/// A node of another kind than a regular file, where a regular file is
/// expected, has changed.
pub proof fn law_other_kind_is_changed(observed: ObservationView, recorded: u64, hash: HashView)
    requires
        observed.ftype != FileType::REG,
    ensures
        checked(observed, Some(MetadataView::Regular { mtime: recorded, hash })) == settled(
            observed,
            FileStatus::Changed,
        ),
{
}

/// Where no digest is needed, none is looked at: the node is settled, and
/// with any other digest, or with none, the result is the same.
pub proof fn law_digest_is_read_only_when_needed(
    observed: ObservationView,
    other: Option<Result<Seq<u8>, Seq<char>>>,
    expected: Option<MetadataView>,
)
    requires
        !digest_needed(observed.ftype, observed.mtime, expected),
    ensures
        checked(observed, expected) is Ok,
        checked(ObservationView { digest: other, ..observed }, expected) == checked(
            observed,
            expected,
        ),
{
}

/// A node of which nothing is expected is an orphan.
pub proof fn law_unrecorded_is_orphan(observed: ObservationView)
    ensures
        checked(observed, None) == settled(observed, FileStatus::Orphan),
{
}

/// No node is given the status of an absent file.
pub proof fn law_nothing_is_absent(observed: ObservationView, expected: Option<MetadataView>)
    ensures
        checked(observed, expected) matches Ok(item) ==> item.status != FileStatus::Absent,
{
}

/// Once an audit has failed, more observations do not change the error.
pub proof fn lemma_audit_error_stays(
    start: Map<Seq<char>, ItemView>,
    observations: Seq<ObservationView>,
    expectations: Map<Seq<char>, MetadataView>,
    n: int,
)
    requires
        0 <= n <= observations.len(),
        audit_from(start, observations.take(n), expectations) is Err,
    ensures
        audit_from(start, observations, expectations) == audit_from(
            start,
            observations.take(n),
            expectations,
        ),
    decreases observations.len() - n,
{
    if n < observations.len() {
        assert(observations.drop_last().take(n) =~= observations.take(n));
        lemma_audit_error_stays(start, observations.drop_last(), expectations, n);
    } else {
        assert(observations.take(n) =~= observations);
    }
}

/// Whether no node is observed at the path of node `i` after it, but for
/// directories.
pub open spec fn is_last_of_its_path(observations: Seq<ObservationView>, i: int) -> bool {
    forall|j: int|
        i < j < observations.len() ==> (#[trigger] observations[j]).ftype == FileType::DIR
            || observations[j].path != observations[i].path
}

/// An audit that succeeds holds, for each node that is no directory, the
/// result of checking it, unless the same path was observed again later.
pub proof fn law_audit_holds_each_check(
    start: Map<Seq<char>, ItemView>,
    observations: Seq<ObservationView>,
    expectations: Map<Seq<char>, MetadataView>,
    i: int,
)
    requires
        0 <= i < observations.len(),
        observations[i].ftype != FileType::DIR,
        is_last_of_its_path(observations, i),
        audit_from(start, observations, expectations) is Ok,
    ensures
        audit_from(start, observations, expectations)->Ok_0.contains_key(observations[i].path),
        checked(observations[i], lookup(expectations, observations[i].path)) == Ok::<
            ItemView,
            ErrorView,
        >(audit_from(start, observations, expectations)->Ok_0[observations[i].path]),
    decreases observations.len(),
{
    let front = observations.drop_last();
    if i < observations.len() - 1 {
        assert(front[i] == observations[i]);
        assert(is_last_of_its_path(front, i)) by {
            assert forall|j: int| i < j < front.len() implies (#[trigger] front[j]).ftype
                == FileType::DIR || front[j].path != front[i].path by {
                assert(front[j] == observations[j]);
            }
        }
        law_audit_holds_each_check(start, front, expectations, i);
        let last = observations[observations.len() - 1];
        assert(last.ftype == FileType::DIR || last.path != observations[i].path);
    }
}

/// An audit that succeeds finds changed every node that is neither a regular
/// file nor a directory, where the database expects a regular file at its
/// path. A directory is passed over, and is given no status.
pub proof fn law_audit_finds_other_kind_changed(
    start: Map<Seq<char>, ItemView>,
    observations: Seq<ObservationView>,
    expectations: Map<Seq<char>, MetadataView>,
    i: int,
)
    requires
        0 <= i < observations.len(),
        observations[i].ftype != FileType::REG,
        observations[i].ftype != FileType::DIR,
        expects_regular_file(expectations, observations[i].path),
        is_last_of_its_path(observations, i),
        audit_from(start, observations, expectations) is Ok,
    ensures
        audit_from(start, observations, expectations)->Ok_0.contains_key(observations[i].path),
        audit_from(start, observations, expectations)->Ok_0[observations[i].path].status
            == FileStatus::Changed,
{
    law_audit_holds_each_check(start, observations, expectations, i);
}

/// An audit that succeeds finds every node an orphan that is no directory
/// and of whose path the database expects nothing.
pub proof fn law_audit_finds_unrecorded_orphan(
    start: Map<Seq<char>, ItemView>,
    observations: Seq<ObservationView>,
    expectations: Map<Seq<char>, MetadataView>,
    i: int,
)
    requires
        0 <= i < observations.len(),
        observations[i].ftype != FileType::DIR,
        !expectations.contains_key(observations[i].path),
        is_last_of_its_path(observations, i),
        audit_from(start, observations, expectations) is Ok,
    ensures
        audit_from(start, observations, expectations)->Ok_0.contains_key(observations[i].path),
        audit_from(start, observations, expectations)->Ok_0[observations[i].path].status
            == FileStatus::Orphan,
{
    law_audit_holds_each_check(start, observations, expectations, i);
}

/// An audit that succeeds holds a result for no path but those it started
/// with and those of the nodes observed that are no directories, and it
/// leaves the results of the paths that were not observed as they were.
pub proof fn law_audit_holds_only_observed(
    start: Map<Seq<char>, ItemView>,
    observations: Seq<ObservationView>,
    expectations: Map<Seq<char>, MetadataView>,
    path: Seq<char>,
)
    requires
        audit_from(start, observations, expectations) is Ok,
        forall|i: int|
            0 <= i < observations.len() ==> (#[trigger] observations[i]).path != path
                || observations[i].ftype == FileType::DIR,
    ensures
        audit_from(start, observations, expectations)->Ok_0.contains_key(path)
            == start.contains_key(path),
        start.contains_key(path) ==> audit_from(start, observations, expectations)->Ok_0[path]
            == start[path],
    decreases observations.len(),
{
    if observations.len() > 0 {
        let front = observations.drop_last();
        let last = observations[observations.len() - 1];
        assert(last.path != path || last.ftype == FileType::DIR);
        assert forall|i: int| 0 <= i < front.len() implies (#[trigger] front[i]).path != path
            || front[i].ftype == FileType::DIR by {
            assert(front[i] == observations[i]);
        }
        law_audit_holds_only_observed(start, front, expectations, path);
    }
}

/// Whether `item` is what checking the node `observed` against
/// `expectations` gives.
pub open spec fn is_check_of(
    item: ItemView,
    observed: ObservationView,
    expectations: Map<Seq<char>, MetadataView>,
) -> bool {
    observed.ftype != FileType::DIR && checked(
        observed,
        lookup(expectations, observed.path),
    ) == Ok::<ItemView, ErrorView>(item)
}

/// Each result of an audit that succeeds is one that it started with, or
/// what checking a node observed at that path gives.
pub proof fn law_audit_results_are_checks(
    start: Map<Seq<char>, ItemView>,
    observations: Seq<ObservationView>,
    expectations: Map<Seq<char>, MetadataView>,
    path: Seq<char>,
)
    requires
        audit_from(start, observations, expectations) matches Ok(results) && results.contains_key(
            path,
        ),
    ensures
        (start.contains_key(path) && audit_from(start, observations, expectations)->Ok_0[path]
            == start[path]) || exists|i: int|
            0 <= i < observations.len() && (#[trigger] observations[i]).path == path
                && is_check_of(
                audit_from(start, observations, expectations)->Ok_0[path],
                observations[i],
                expectations,
            ),
    decreases observations.len(),
{
    if observations.len() > 0 {
        let front = observations.drop_last();
        let last = observations[observations.len() - 1];
        let results = audit_from(start, observations, expectations)->Ok_0;
        if last.ftype != FileType::DIR && last.path == path {
            assert(is_check_of(results[path], observations[observations.len() - 1], expectations));
        } else {
            law_audit_results_are_checks(start, front, expectations, path);
            if !(start.contains_key(path) && results[path] == start[path]) {
                let i = choose|i: int|
                    0 <= i < front.len() && (#[trigger] front[i]).path == path && is_check_of(
                        results[path],
                        front[i],
                        expectations,
                    );
                assert(observations[i] == front[i]);
            }
        }
    }
}

/// Whether a regular file has the modification time that is recorded for
/// its path, where one is recorded.
pub open spec fn keeps_recorded_mtime(
    observed: ObservationView,
    expectations: Map<Seq<char>, MetadataView>,
) -> bool {
    observed.ftype == FileType::REG ==> (lookup(expectations, observed.path) matches Some(
        MetadataView::Regular { mtime, .. },
    ) ==> observed.mtime == mtime)
}

/// Whether the database expects a regular file at `path`.
pub open spec fn expects_regular_file(
    expectations: Map<Seq<char>, MetadataView>,
    path: Seq<char>,
) -> bool {
    expectations.contains_key(path) && expectations[path] is Regular
}

/// The audit of a tree whose regular files have the recorded modification
/// times succeeds without the content of any file, and finds every regular
/// file aligned of which the database expects a regular file.
pub proof fn law_unmodified_tree_is_aligned(
    observations: Seq<ObservationView>,
    expectations: Map<Seq<char>, MetadataView>,
)
    requires
        forall|i: int|
            0 <= i < observations.len() ==> keeps_recorded_mtime(
                #[trigger] observations[i],
                expectations,
            ),
    ensures
        audit(observations, expectations) is Ok,
        ({
            let results = audit(observations, expectations)->Ok_0;
            forall|path: Seq<char>|
                results.contains_key(path) && results[path].ftype == FileType::REG
                    && expects_regular_file(expectations, path) ==> (#[trigger] results[path]).status
                    == FileStatus::Aligned
        }),
    decreases observations.len(),
{
    let start = Map::<Seq<char>, ItemView>::empty();
    if observations.len() > 0 {
        let front = observations.drop_last();
        assert forall|i: int| 0 <= i < front.len() implies keeps_recorded_mtime(
            #[trigger] front[i],
            expectations,
        ) by {
            assert(front[i] == observations[i]);
        }
        law_unmodified_tree_is_aligned(front, expectations);
        assert(keeps_recorded_mtime(observations[observations.len() - 1], expectations));
    }
    let results = audit(observations, expectations)->Ok_0;
    assert forall|path: Seq<char>|
        results.contains_key(path) && results[path].ftype == FileType::REG && expects_regular_file(
            expectations,
            path,
        ) implies (#[trigger] results[path]).status == FileStatus::Aligned by {
        law_audit_results_are_checks(start, observations, expectations, path);
        let i = choose|i: int|
            0 <= i < observations.len() && (#[trigger] observations[i]).path == path
                && is_check_of(results[path], observations[i], expectations);
        assert(keeps_recorded_mtime(observations[i], expectations));
    }
}

/// An audit may be made in parts: to hold a walk against the expectations is
/// to hold its first part against them, and then the rest, starting from the
/// results of the first part.
pub proof fn law_audit_in_parts(
    start: Map<Seq<char>, ItemView>,
    first: Seq<ObservationView>,
    rest: Seq<ObservationView>,
    expectations: Map<Seq<char>, MetadataView>,
)
    ensures
        audit_from(start, first + rest, expectations) == (match audit_from(
            start,
            first,
            expectations,
        ) {
            Ok(results) => audit_from(results, rest, expectations),
            Err(error) => Err(error),
        }),
    decreases rest.len(),
{
    if rest.len() == 0 {
        assert(first + rest =~= first);
    } else {
        assert((first + rest).drop_last() =~= first + rest.drop_last());
        assert((first + rest).last() == rest.last());
        law_audit_in_parts(start, first, rest.drop_last(), expectations);
    }
}

} // verus!
