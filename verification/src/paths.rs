//! Paths as text, and the hierarchy that their components make.
//!
//! A path is divided at each `/`, as `std::path::Path` divides a path on
//! Unix: a `/` at the very start is a component of its own, the root; empty
//! parts and `.` parts are passed over, but for a `.` that starts a relative
//! path.

use crate::text::{chars_of, last_index_of, lemma_last_index_of, rfind_char};
use vstd::prelude::*;

verus! {

/// Whether a part of a path between two separators is a component: it is not
/// empty, and it is not `.`.
pub open spec fn is_normal(part: Seq<char>) -> bool {
    part.len() > 0 && !(part.len() == 1 && part[0] == '.')
}

/// `part` as a list of components: itself where it is a component, nothing
/// where it is not.
pub open spec fn kept(part: Seq<char>) -> Seq<Seq<char>> {
    if is_normal(part) {
        seq![part]
    } else {
        Seq::empty()
    }
}

/// The components that stand between the separators of `path`, in order.
pub open spec fn normal_components(path: Seq<char>) -> Seq<Seq<char>>
    decreases path.len(),
{
    match last_index_of(path, '/') {
        Some(at) => if 0 <= at < path.len() {
            normal_components(path.take(at)) + kept(path.skip(at + 1))
        } else {
            Seq::empty()
        },
        None => kept(path),
    }
}

/// The component that the start of `path` makes by itself: the root of an
/// absolute path, or the `.` that a relative path starts with.
pub open spec fn leading_component(path: Seq<char>) -> Seq<Seq<char>> {
    if path.len() > 0 && path[0] == '/' {
        seq![seq!['/']]
    } else if path.len() > 0 && path[0] == '.' && (path.len() == 1 || path[1] == '/') {
        seq![seq!['.']]
    } else {
        Seq::empty()
    }
}

/// The components of `path`, in order.
pub open spec fn components(path: Seq<char>) -> Seq<Seq<char>> {
    leading_component(path) + normal_components(path)
}

/// Whether `path` lies under `base` in the hierarchy of paths: the components
/// of `base` are the first components of `path`.
pub open spec fn lies_under(path: Seq<char>, base: Seq<char>) -> bool {
    components(base).is_prefix_of(components(path))
}

/// Every path lies under itself.
pub proof fn law_path_lies_under_itself(path: Seq<char>)
    ensures
        lies_under(path, path),
{
    let parts = components(path);
    assert(parts.subrange(0, parts.len() as int) =~= parts);
}

/// What lies under a path lies under all that the path lies under.
pub proof fn law_lies_under_is_transitive(path: Seq<char>, middle: Seq<char>, base: Seq<char>)
    requires
        lies_under(path, middle),
        lies_under(middle, base),
    ensures
        lies_under(path, base),
{
    let low = components(path);
    let mid = components(middle);
    let top = components(base);
    assert(top =~= low.subrange(0, top.len() as int)) by {
        assert forall|i: int| 0 <= i < top.len() implies top[i] == low[i] by {
            assert(top[i] == mid.subrange(0, top.len() as int)[i]);
            assert(mid[i] == low.subrange(0, mid.len() as int)[i]);
        }
    }
}

/// Every path lies under the empty path, and an absolute path lies under
/// the root.
pub proof fn law_all_lies_under_the_start(path: Seq<char>)
    ensures
        lies_under(path, Seq::empty()),
        path.len() > 0 && path[0] == '/' ==> lies_under(path, seq!['/']),
{
    let none = Seq::<char>::empty();
    assert(last_index_of(none, '/') is None);
    assert(components(none) =~= Seq::<Seq<char>>::empty());
    assert(components(none) =~= components(path).subrange(0, 0));
    let root = seq!['/'];
    assert(root.drop_last() =~= none);
    assert(last_index_of(root, '/') == Some(0int));
    assert(root.take(0) =~= none);
    assert(root.skip(1) =~= none);
    assert(normal_components(root) =~= Seq::<Seq<char>>::empty());
    assert(components(root) =~= seq![root]);
    if path.len() > 0 && path[0] == '/' {
        assert(components(path)[0] == root);
        assert(components(root) =~= components(path).subrange(0, 1));
    }
}

/// The texts that `parts` cut out of `chars`, each part being the positions
/// where a text starts and ends.
pub open spec fn texts(chars: Seq<char>, parts: Seq<(usize, usize)>) -> Seq<Seq<char>> {
    Seq::new(parts.len(), |i: int| chars.subrange(parts[i].0 as int, parts[i].1 as int))
}

/// Whether each of `parts` is a range of positions in a text of `len`
/// characters.
pub open spec fn parts_within(parts: Seq<(usize, usize)>, len: nat) -> bool {
    forall|i: int| 0 <= i < parts.len() ==> (#[trigger] parts[i]).0 <= parts[i].1 <= len
}

/// Whether the characters of `chars` from `from` up to `to` make a component.
fn range_is_normal(chars: &Vec<char>, from: usize, to: usize) -> (normal: bool)
    requires
        from <= to <= chars.len(),
    ensures
        normal == is_normal(chars@.subrange(from as int, to as int)),
{
    let ghost part = chars@.subrange(from as int, to as int);
    if to == from {
        false
    } else if to - from == 1 && chars[from] == '.' {
        assert(part[0] == '.');
        false
    } else {
        assert(part[0] == chars@[from as int]);
        true
    }
}

/// Divides a path into its components, each given by the positions where it
/// starts and ends.
pub(crate) fn split_components(chars: &Vec<char>) -> (parts: Vec<(usize, usize)>)
    ensures
        parts_within(parts@, chars@.len()),
        texts(chars@, parts@) == components(chars@),
{
    let ghost path = chars@;
    // The components between the separators, found from the last to the first.
    let mut found: Vec<(usize, usize)> = Vec::new();
    let ghost mut tail: Seq<Seq<char>> = Seq::empty();
    let mut end: usize = chars.len();
    let mut done: bool = false;
    assert(path.take(end as int) =~= path);
    while !done
        invariant
            path == chars@,
            end <= chars.len(),
            parts_within(found@, chars@.len()),
            tail.len() == found.len(),
            forall|j: int|
                0 <= j < tail.len() ==> #[trigger] tail[j] == path.subrange(
                    found@[tail.len() - 1 - j].0 as int,
                    found@[tail.len() - 1 - j].1 as int,
                ),
            !done ==> normal_components(path) == normal_components(path.take(end as int)) + tail,
            done ==> normal_components(path) == tail,
        decreases end + if done { 0int } else { 1int },
    {
        let ghost front = path.take(end as int);
        assert(front =~= path.subrange(0, end as int));
        proof {
            lemma_last_index_of(front, '/');
        }
        let (start, next): (usize, Option<usize>) = match rfind_char(chars, 0, end, '/') {
            Some(at) => (at + 1, Some(at)),
            None => (0, None),
        };
        let ghost part = path.subrange(start as int, end as int);
        proof {
            match next {
                Some(at) => {
                    assert(front.skip(at + 1) =~= part);
                    assert(front.take(at as int) =~= path.take(at as int));
                    assert(normal_components(front) == normal_components(path.take(at as int))
                        + kept(part));
                },
                None => {
                    assert(front =~= part);
                    assert(normal_components(front) == kept(part));
                },
            }
        }
        let ghost old_tail = tail;
        if range_is_normal(chars, start, end) {
            found.push((start, end));
            proof {
                tail = seq![part] + old_tail;
                assert(kept(part) + old_tail =~= tail);
                assert forall|j: int| 0 <= j < tail.len() implies #[trigger] tail[j]
                    == path.subrange(
                    found@[tail.len() - 1 - j].0 as int,
                    found@[tail.len() - 1 - j].1 as int,
                ) by {
                    if j > 0 {
                        assert(tail[j] == old_tail[j - 1]);
                    }
                }
            }
        } else {
            assert(kept(part) + old_tail =~= tail);
        }
        match next {
            Some(at) => {
                assert(normal_components(path) =~= normal_components(path.take(at as int)) + (kept(
                    part,
                ) + old_tail));
                end = at;
            },
            None => {
                assert(normal_components(path) =~= kept(part) + old_tail);
                done = true;
            },
        }
    }
    let mut parts: Vec<(usize, usize)> = Vec::new();
    let n: usize = chars.len();
    if n > 0 && (chars[0] == '/' || (chars[0] == '.' && (n == 1 || chars[1] == '/'))) {
        parts.push((0, 1));
        assert(path.subrange(0, 1) =~= seq![path[0]]);
    }
    assert(texts(path, parts@) =~= leading_component(path));
    let ghost lead = parts@.len();
    let mut k: usize = found.len();
    while k > 0
        invariant
            path == chars@,
            k <= found.len(),
            parts_within(found@, chars@.len()),
            parts_within(parts@, chars@.len()),
            tail.len() == found.len(),
            forall|j: int|
                0 <= j < tail.len() ==> #[trigger] tail[j] == path.subrange(
                    found@[tail.len() - 1 - j].0 as int,
                    found@[tail.len() - 1 - j].1 as int,
                ),
            texts(path, parts@) == leading_component(path) + tail.take(found.len() - k),
        decreases k,
    {
        let ghost before = parts@;
        k -= 1;
        parts.push(found[k]);
        proof {
            let j = found.len() - 1 - k;
            assert(tail[j] == path.subrange(found@[k as int].0 as int, found@[k as int].1 as int));
            assert(tail.take(j + 1) =~= tail.take(j).push(tail[j]));
            assert(texts(path, parts@) =~= texts(path, before).push(tail[j]));
        }
    }
    assert(tail.take(found.len() as int) =~= tail);
    parts
}

/// Whether the characters of `a` from `a_from` up to `a_to` are those of `b`
/// from `b_from` up to `b_to`.
fn ranges_equal(
    a: &Vec<char>,
    a_from: usize,
    a_to: usize,
    b: &Vec<char>,
    b_from: usize,
    b_to: usize,
) -> (same: bool)
    requires
        a_from <= a_to <= a.len(),
        b_from <= b_to <= b.len(),
    ensures
        same == (a@.subrange(a_from as int, a_to as int) == b@.subrange(
            b_from as int,
            b_to as int,
        )),
{
    let ghost left = a@.subrange(a_from as int, a_to as int);
    let ghost right = b@.subrange(b_from as int, b_to as int);
    if a_to - a_from != b_to - b_from {
        assert(left.len() != right.len());
        return false;
    }
    let len: usize = a_to - a_from;
    let mut i: usize = 0;
    while i < len
        invariant
            a_from <= a_to <= a.len(),
            b_from <= b_to <= b.len(),
            len == a_to - a_from,
            len == b_to - b_from,
            i <= len,
            left == a@.subrange(a_from as int, a_to as int),
            right == b@.subrange(b_from as int, b_to as int),
            forall|j: int| 0 <= j < i ==> left[j] == right[j],
        decreases len - i,
    {
        if a[a_from + i] != b[b_from + i] {
            assert(left[i as int] != right[i as int]);
            return false;
        }
        i += 1;
    }
    assert(left =~= right);
    true
}

/// Whether the path `path` lies under the path `base`, both given with their
/// components.
pub(crate) fn parts_lie_under(
    path: &Vec<char>,
    path_parts: &Vec<(usize, usize)>,
    base: &Vec<char>,
    base_parts: &Vec<(usize, usize)>,
) -> (under: bool)
    requires
        parts_within(path_parts@, path@.len()),
        parts_within(base_parts@, base@.len()),
        texts(path@, path_parts@) == components(path@),
        texts(base@, base_parts@) == components(base@),
    ensures
        under == lies_under(path@, base@),
{
    let ghost wanted = components(base@);
    let ghost given = components(path@);
    if base_parts.len() > path_parts.len() {
        return false;
    }
    let mut i: usize = 0;
    while i < base_parts.len()
        invariant
            i <= base_parts.len() <= path_parts.len(),
            parts_within(path_parts@, path@.len()),
            parts_within(base_parts@, base@.len()),
            wanted == components(base@),
            given == components(path@),
            wanted == texts(base@, base_parts@),
            given == texts(path@, path_parts@),
            forall|j: int| 0 <= j < i ==> wanted[j] == given[j],
        decreases base_parts.len() - i,
    {
        let (base_from, base_to) = base_parts[i];
        let (path_from, path_to) = path_parts[i];
        if !ranges_equal(path, path_from, path_to, base, base_from, base_to) {
            assert(wanted[i as int] != given[i as int]);
            assert(given.subrange(0, wanted.len() as int)[i as int] == given[i as int]);
            return false;
        }
        i += 1;
    }
    assert(wanted =~= given.subrange(0, wanted.len() as int));
    true
}

/// Whether `path` lies under `base` in the hierarchy of paths.
pub fn path_lies_under(path: &str, base: &str) -> (under: bool)
    ensures
        under == lies_under(path@, base@),
{
    let path_chars = chars_of(path);
    let base_chars = chars_of(base);
    let path_parts = split_components(&path_chars);
    let base_parts = split_components(&base_chars);
    parts_lie_under(&path_chars, &path_parts, &base_chars, &base_parts)
}

} // verus!
