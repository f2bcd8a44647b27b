//! Request paths as bytes: how a path falls into segments, which segments a
//! wildcard may capture, how a captured path joins a base directory, and what
//! extension a file name has.

use vstd::prelude::*;
use vstd::slice::{slice_subrange, slice_to_vec};

verus! {

/// `/`
pub const SLASH: u8 = 47;

/// `.`
pub const DOT: u8 = 46;

/// `*`
pub const STAR: u8 = 42;

/// `:`
pub const COLON: u8 = 58;

/// `<`
pub const LESS: u8 = 60;

/// `>`
pub const GREATER: u8 = 62;

/// The byte strings that a list of owned byte strings holds.
pub open spec fn views(items: Seq<Vec<u8>>) -> Seq<Seq<u8>> {
    items.map_values(|item: Vec<u8>| item@)
}

/// The length of the longest prefix of `path` that holds no slash.
pub open spec fn first_run(path: Seq<u8>) -> nat
    decreases path.len(),
{
    if path.len() == 0 || path[0] == SLASH {
        0
    } else {
        1 + first_run(path.drop_first())
    }
}

/// `first_run` stays inside the path, covers no slash, and stops at a slash or
/// at the end.
pub proof fn lemma_first_run_bounds(path: Seq<u8>)
    ensures
        first_run(path) <= path.len(),
        forall|i: int| 0 <= i < first_run(path) ==> path[i] != SLASH,
        first_run(path) < path.len() ==> path[first_run(path) as int] == SLASH,
        path.len() > 0 && path[0] != SLASH ==> first_run(path) >= 1,
    decreases path.len(),
{
    if path.len() == 0 || path[0] == SLASH {
    } else {
        let rest = path.drop_first();
        lemma_first_run_bounds(rest);
        assert forall|i: int| 0 <= i < first_run(path) implies path[i] != SLASH by {
            if i > 0 {
                assert(path[i] == rest[i - 1]);
            }
        }
        if first_run(path) < path.len() {
            assert(path[first_run(path) as int] == rest[first_run(rest) as int]);
        }
    }
}

/// A slash-free stretch that ends at a slash or at the end of the path is the
/// first run.
pub proof fn lemma_first_run_is(path: Seq<u8>, n: int)
    requires
        0 <= n <= path.len(),
        forall|i: int| 0 <= i < n ==> path[i] != SLASH,
        n == path.len() || path[n] == SLASH,
    ensures
        first_run(path) == n,
    decreases n,
{
    if n > 0 {
        let rest = path.drop_first();
        assert forall|i: int| 0 <= i < n - 1 implies rest[i] != SLASH by {
            assert(rest[i] == path[i + 1]);
        }
        lemma_first_run_is(rest, n - 1);
    }
}

/// The segments of a path: its maximal slash-free stretches, in order. Slashes
/// only separate, so leading, trailing and doubled slashes add no segment.
pub open spec fn segments_of(path: Seq<u8>) -> Seq<Seq<u8>>
    decreases path.len(),
    via segments_of_decreases
{
    if path.len() == 0 {
        Seq::empty()
    } else if path[0] == SLASH {
        segments_of(path.drop_first())
    } else {
        let n = first_run(path) as int;
        seq![path.take(n)] + segments_of(path.skip(n))
    }
}

#[via_fn]
proof fn segments_of_decreases(path: Seq<u8>) {
    lemma_first_run_bounds(path);
}

/// Splits a path into its segments.
pub fn split_segments(path: &[u8]) -> (segments: Vec<Vec<u8>>)
    ensures
        views(segments@) == segments_of(path@),
{
    let mut segments: Vec<Vec<u8>> = Vec::new();
    let mut i: usize = 0;
    proof {
        assert(path@.skip(0) == path@);
        assert(views(segments@) + segments_of(path@) == segments_of(path@));
    }
    while i < path.len()
        invariant
            i <= path.len(),
            segments_of(path@) == views(segments@) + segments_of(path@.skip(i as int)),
        decreases path.len() - i,
    {
        let ghost rest = path@.skip(i as int);
        if path[i] == SLASH {
            assert(rest.drop_first() == path@.skip(i + 1));
            i += 1;
        } else {
            let start: usize = i;
            while i < path.len() && path[i] != SLASH
                invariant
                    start <= i <= path.len(),
                    forall|k: int| start <= k < i ==> path@[k] != SLASH,
                decreases path.len() - i,
            {
                i += 1;
            }
            let segment = slice_to_vec(slice_subrange(path, start, i));
            proof {
                let n = i - start;
                assert forall|k: int| 0 <= k < n implies rest[k] != SLASH by {
                    assert(rest[k] == path@[start + k]);
                }
                lemma_first_run_is(rest, n);
                assert(rest.take(n) == segment@);
                assert(rest.skip(n) == path@.skip(i as int));
                assert(views(segments@.push(segment)) == views(segments@).push(segment@));
                assert(views(segments@) + (seq![segment@] + segments_of(path@.skip(i as int)))
                    == views(segments@).push(segment@) + segments_of(path@.skip(i as int)));
            }
            segments.push(segment);
        }
    }
    assert(path@.skip(i as int).len() == 0);
    assert(views(segments@) + Seq::<Seq<u8>>::empty() == views(segments@));
    segments
}


/// Whether a byte string can be one segment of a path: it is not empty and
/// holds no slash.
pub open spec fn is_segment(bytes: Seq<u8>) -> bool {
    bytes.len() > 0 && !bytes.contains(SLASH)
}

/// Every segment of a path is a segment: not empty, and free of slashes.
pub proof fn lemma_segments_are_segments(path: Seq<u8>)
    ensures
        forall|k: int| 0 <= k < segments_of(path).len() ==> is_segment(#[trigger] segments_of(path)[k]),
    decreases path.len(),
{
    if path.len() == 0 {
        assert(segments_of(path).len() == 0);
    } else if path[0] == SLASH {
        lemma_segments_are_segments(path.drop_first());
        assert(segments_of(path) == segments_of(path.drop_first()));
    } else {
        lemma_first_run_bounds(path);
        let n = first_run(path) as int;
        lemma_segments_are_segments(path.skip(n));
        let head = path.take(n);
        assert(is_segment(head)) by {
            if head.contains(SLASH) {
                let k = choose|k: int| 0 <= k < head.len() && head[k] == SLASH;
                assert(path[k] == SLASH);
            }
        }
        let tail = segments_of(path.skip(n));
        assert(segments_of(path) == seq![head] + tail);
        assert forall|k: int| 0 <= k < segments_of(path).len() implies is_segment(
            #[trigger] segments_of(path)[k],
        ) by {
            if k > 0 {
                assert(segments_of(path)[k] == tail[k - 1]);
            }
        }
    }
}

/// A slash between two paths separates their segments and adds none.
pub proof fn lemma_segments_of_concat(front: Seq<u8>, back: Seq<u8>)
    ensures
        segments_of(front + seq![SLASH] + back) == segments_of(front) + segments_of(back),
    decreases front.len(),
{
    let whole = front + seq![SLASH] + back;
    if front.len() == 0 {
        assert(whole.drop_first() == back);
        assert(segments_of(front) + segments_of(back) == segments_of(back));
    } else if front[0] == SLASH {
        assert(whole.drop_first() == front.drop_first() + seq![SLASH] + back);
        lemma_segments_of_concat(front.drop_first(), back);
    } else {
        lemma_first_run_bounds(front);
        let n = first_run(front) as int;
        assert forall|i: int| 0 <= i < n implies whole[i] != SLASH by {
            assert(whole[i] == front[i]);
        }
        assert(whole[n] == SLASH) by {
            if n < front.len() {
                assert(whole[n] == front[n]);
            }
        }
        lemma_first_run_is(whole, n);
        assert(whole.take(n) == front.take(n));
        assert(whole.skip(n) == front.skip(n) + seq![SLASH] + back);
        lemma_segments_of_concat(front.skip(n), back);
        assert(seq![front.take(n)] + (segments_of(front.skip(n)) + segments_of(back)) == (seq![
            front.take(n),
        ] + segments_of(front.skip(n))) + segments_of(back));
    }
}

/// A segment, taken as a path, has itself as its one segment.
pub proof fn lemma_segments_of_segment(segment: Seq<u8>)
    requires
        is_segment(segment),
    ensures
        segments_of(segment) == seq![segment],
{
    assert forall|i: int| 0 <= i < segment.len() implies segment[i] != SLASH by {
        assert(segment.contains(segment[i]));
    }
    let n = segment.len() as int;
    lemma_first_run_is(segment, n);
    assert(segment[0] != SLASH);
    assert(segment.take(n) == segment);
    assert(segment.skip(n).len() == 0);
    assert(segments_of(segment.skip(n)) == Seq::<Seq<u8>>::empty());
    assert(segments_of(segment) == seq![segment.take(n)] + segments_of(segment.skip(n)));
    assert(seq![segment] + Seq::<Seq<u8>>::empty() == seq![segment]);
}

/// The segments written out as one relative path, a slash between neighbours.
pub open spec fn joined(segments: Seq<Seq<u8>>) -> Seq<u8>
    decreases segments.len(),
{
    if segments.len() == 0 {
        Seq::empty()
    } else if segments.len() == 1 {
        segments[0]
    } else {
        joined(segments.drop_last()) + seq![SLASH] + segments.last()
    }
}

/// Splitting undoes joining: a path written out from segments has exactly
/// those segments.
pub proof fn lemma_segments_of_joined(segments: Seq<Seq<u8>>)
    requires
        forall|k: int| 0 <= k < segments.len() ==> is_segment(#[trigger] segments[k]),
    ensures
        segments_of(joined(segments)) == segments,
    decreases segments.len(),
{
    if segments.len() == 0 {
        assert(segments == Seq::<Seq<u8>>::empty());
    } else if segments.len() == 1 {
        lemma_segments_of_segment(segments[0]);
        assert(segments == seq![segments[0]]);
    } else {
        let front = segments.drop_last();
        lemma_segments_of_joined(front);
        lemma_segments_of_concat(joined(front), segments.last());
        lemma_segments_of_segment(segments.last());
        assert(front + seq![segments.last()] == segments);
    }
}


/// The parent segment, `..`.
pub open spec fn is_parent(segment: Seq<u8>) -> bool {
    segment == seq![DOT, DOT]
}

/// A segment that may name a file or a directory below a base directory: it
/// is not empty, starts with neither a dot nor a star, ends with none of
/// `:`, `<` and `>`, and holds no slash.
pub open spec fn is_plain_name(segment: Seq<u8>) -> bool {
    &&& segment.len() > 0
    &&& segment[0] != DOT
    &&& segment[0] != STAR
    &&& segment.last() != COLON
    &&& segment.last() != LESS
    &&& segment.last() != GREATER
    &&& !segment.contains(SLASH)
}

/// The relative path that a trailing wildcard captures from the segments it
/// is offered, read left to right: `..` drops the name kept last, if there is
/// one; a plain name is kept; any other segment spoils the capture.
pub open spec fn capture_of(segments: Seq<Seq<u8>>) -> Option<Seq<Seq<u8>>>
    decreases segments.len(),
{
    if segments.len() == 0 {
        Some(Seq::empty())
    } else {
        match capture_of(segments.drop_last()) {
            None => None,
            Some(kept) => {
                let segment = segments.last();
                if is_parent(segment) {
                    if kept.len() > 0 {
                        Some(kept.drop_last())
                    } else {
                        Some(kept)
                    }
                } else if is_plain_name(segment) {
                    Some(kept.push(segment))
                } else {
                    None
                }
            },
        }
    }
}

/// A capture that is spoilt after some segments stays spoilt.
pub proof fn lemma_capture_spoilt(segments: Seq<Seq<u8>>, n: int)
    requires
        0 <= n <= segments.len(),
        capture_of(segments.take(n)) is None,
    ensures
        capture_of(segments) is None,
    decreases segments.len() - n,
{
    if n < segments.len() {
        assert(segments.take(n + 1).drop_last() == segments.take(n));
        lemma_capture_spoilt(segments, n + 1);
    } else {
        assert(segments.take(n) == segments);
    }
}

/// What a capture keeps is made of plain names only: no `..`, no hidden name,
/// nothing with a slash in it. A path joined from it cannot leave its base.
pub proof fn lemma_capture_is_plain(segments: Seq<Seq<u8>>)
    ensures
        capture_of(segments) matches Some(kept) ==> forall|k: int|
            0 <= k < kept.len() ==> is_plain_name(#[trigger] kept[k]),
    decreases segments.len(),
{
    if segments.len() > 0 {
        lemma_capture_is_plain(segments.drop_last());
    }
}

/// Plain names are captured as they stand.
pub proof fn lemma_capture_of_plain(segments: Seq<Seq<u8>>)
    requires
        forall|k: int| 0 <= k < segments.len() ==> is_plain_name(#[trigger] segments[k]),
    ensures
        capture_of(segments) == Some(segments),
    decreases segments.len(),
{
    if segments.len() == 0 {
        assert(segments == Seq::<Seq<u8>>::empty());
    } else {
        lemma_capture_of_plain(segments.drop_last());
        assert(segments.drop_last().push(segments.last()) == segments);
        assert(segments.last()[0] != DOT);
    }
}

/// Whether two byte strings are equal.
pub fn bytes_equal(left: &[u8], right: &[u8]) -> (equal: bool)
    ensures
        equal == (left@ == right@),
{
    if left.len() != right.len() {
        return false;
    }
    let mut i: usize = 0;
    while i < left.len()
        invariant
            i <= left.len(),
            left.len() == right.len(),
            forall|k: int| 0 <= k < i ==> left@[k] == right@[k],
        decreases left.len() - i,
    {
        if left[i] != right[i] {
            return false;
        }
        i += 1;
    }
    assert(left@ == right@);
    true
}

/// Whether `bytes` holds `byte`.
pub fn holds_byte(bytes: &[u8], byte: u8) -> (found: bool)
    ensures
        found == bytes@.contains(byte),
{
    let mut i: usize = 0;
    while i < bytes.len()
        invariant
            i <= bytes.len(),
            forall|k: int| 0 <= k < i ==> bytes@[k] != byte,
        decreases bytes.len() - i,
    {
        if bytes[i] == byte {
            return true;
        }
        i += 1;
    }
    false
}

/// Whether a segment is `..`.
pub fn segment_is_parent(segment: &[u8]) -> (parent: bool)
    ensures
        parent == is_parent(segment@),
{
    let parent = segment.len() == 2 && segment[0] == DOT && segment[1] == DOT;
    proof {
        let dots = seq![DOT, DOT];
        assert(dots.len() == 2 && dots[0] == DOT && dots[1] == DOT);
        if parent {
            assert(segment@ =~= dots);
        }
    }
    parent
}

/// Whether a segment is a plain name.
pub fn segment_is_plain_name(segment: &[u8]) -> (plain: bool)
    ensures
        plain == is_plain_name(segment@),
{
    if segment.len() == 0 {
        return false;
    }
    let first = segment[0];
    let last = segment[segment.len() - 1];
    first != DOT && first != STAR && last != COLON && last != LESS && last != GREATER && !holds_byte(
        segment,
        SLASH,
    )
}

/// Captures a relative path from the segments that a trailing wildcard is
/// offered, or finds the capture spoilt.
pub fn capture(segments: &[Vec<u8>]) -> (captured: Option<Vec<Vec<u8>>>)
    ensures
        match captured {
            Some(kept) => capture_of(views(segments@)) == Some(views(kept@)),
            None => capture_of(views(segments@)) is None,
        },
{
    let mut kept: Vec<Vec<u8>> = Vec::new();
    let mut i: usize = 0;
    assert(views(segments@).take(0) == Seq::<Seq<u8>>::empty());
    assert(views(kept@) == Seq::<Seq<u8>>::empty());
    while i < segments.len()
        invariant
            i <= segments.len(),
            capture_of(views(segments@).take(i as int)) == Some(views(kept@)),
        decreases segments.len() - i,
    {
        let segment: &Vec<u8> = &segments[i];
        let ghost before = views(segments@).take(i as int);
        let ghost upto = views(segments@).take(i + 1);
        proof {
            assert(upto.drop_last() == before);
            assert(upto.last() == segment@);
        }
        if segment_is_parent(segment.as_slice()) {
            if kept.len() > 0 {
                let ghost old_kept = kept@;
                kept.pop();
                assert(views(kept@) == views(old_kept).drop_last());
            }
        } else if segment_is_plain_name(segment.as_slice()) {
            let ghost old_kept = kept@;
            let copy = slice_to_vec(segment.as_slice());
            kept.push(copy);
            assert(views(kept@) == views(old_kept).push(segment@));
        } else {
            proof {
                lemma_capture_spoilt(views(segments@), i + 1);
            }
            return None;
        }
        i += 1;
    }
    assert(views(segments@).take(i as int) == views(segments@));
    Some(kept)
}

/// The path of a captured file below a base directory: the base, then the
/// captured names with a slash between neighbours.
pub open spec fn resolved(base: Seq<u8>, file: Seq<Seq<u8>>) -> Seq<u8> {
    base + joined(file)
}

/// Joins a captured relative path to a base directory.
pub fn resolve(base: &[u8], file: &[Vec<u8>]) -> (path: Vec<u8>)
    ensures
        path@ == resolved(base@, views(file@)),
{
    let mut path = slice_to_vec(base);
    let mut i: usize = 0;
    assert(views(file@).take(0) == Seq::<Seq<u8>>::empty());
    assert(base@ + Seq::<u8>::empty() == base@);
    while i < file.len()
        invariant
            i <= file.len(),
            path@ == base@ + joined(views(file@).take(i as int)),
        decreases file.len() - i,
    {
        let ghost before = views(file@).take(i as int);
        let ghost upto = views(file@).take(i + 1);
        proof {
            assert(upto.drop_last() == before);
            assert(upto.last() == file@[i as int]@);
            if i == 0 {
                assert(upto[0] == file@[0]@);
                assert(joined(before) == Seq::<u8>::empty());
            }
        }
        if i > 0 {
            path.push(SLASH);
        }
        path.extend_from_slice(file[i].as_slice());
        proof {
            if i == 0 {
                assert(path@ == base@ + joined(upto));
            } else {
                assert(path@ == base@ + (joined(before) + seq![SLASH] + upto.last()));
            }
        }
        i += 1;
    }
    assert(views(file@).take(i as int) == views(file@));
    path
}

/// The index of the last dot of a file name that is not its first byte, or 0
/// if it has no such dot.
pub open spec fn last_dot(name: Seq<u8>) -> int
    decreases name.len(),
{
    if name.len() <= 1 {
        0
    } else if name.last() == DOT {
        name.len() - 1
    } else {
        last_dot(name.drop_last())
    }
}

/// The extension of a file name: what follows its last dot, where a dot that
/// is the first byte of the name starts no extension, and `..` has none.
pub open spec fn extension_of(name: Seq<u8>) -> Option<Seq<u8>> {
    let dot = last_dot(name);
    if dot > 0 && !is_parent(name) {
        Some(name.skip(dot + 1))
    } else {
        None
    }
}

/// `last_dot` finds a dot behind the first byte, and it is the last one.
pub proof fn lemma_last_dot(name: Seq<u8>)
    ensures
        0 <= last_dot(name) < name.len() || (name.len() == 0 && last_dot(name) == 0),
        last_dot(name) > 0 ==> name[last_dot(name)] == DOT,
        forall|i: int| last_dot(name) < i < name.len() && i > 0 ==> name[i] != DOT,
    decreases name.len(),
{
    if name.len() > 1 && name.last() != DOT {
        lemma_last_dot(name.drop_last());
        assert forall|i: int| last_dot(name) < i < name.len() && i > 0 implies name[i] != DOT by {
            if i < name.len() - 1 {
                assert(name[i] == name.drop_last()[i]);
            }
        }
    }
}

/// A dot behind the first byte with no dot after it is the last dot.
pub proof fn lemma_last_dot_is(name: Seq<u8>, dot: int)
    requires
        0 < dot < name.len(),
        name[dot] == DOT,
        forall|i: int| dot < i < name.len() ==> name[i] != DOT,
    ensures
        last_dot(name) == dot,
    decreases name.len(),
{
    if dot < name.len() - 1 {
        let front = name.drop_last();
        assert(front[dot] == DOT);
        assert forall|i: int| dot < i < front.len() implies front[i] != DOT by {
            assert(front[i] == name[i]);
        }
        lemma_last_dot_is(front, dot);
    }
}

/// A name without a dot behind its first byte has no last dot.
pub proof fn lemma_last_dot_none(name: Seq<u8>)
    requires
        forall|i: int| 0 < i < name.len() ==> name[i] != DOT,
    ensures
        last_dot(name) == 0,
    decreases name.len(),
{
    if name.len() > 1 {
        let front = name.drop_last();
        assert forall|i: int| 0 < i < front.len() implies front[i] != DOT by {
            assert(front[i] == name[i]);
        }
        lemma_last_dot_none(front);
    }
}

/// The extension of a file name, if it has one.
pub fn extension(name: &[u8]) -> (found: Option<Vec<u8>>)
    ensures
        match found {
            Some(bytes) => extension_of(name@) == Some(bytes@),
            None => extension_of(name@) is None,
        },
{
    if segment_is_parent(name) {
        return None;
    }
    let mut i: usize = name.len();
    while i > 1
        invariant
            i <= name.len(),
            !is_parent(name@),
            forall|k: int| i <= k < name.len() && k > 0 ==> name@[k] != DOT,
        decreases i,
    {
        i -= 1;
        if name[i] == DOT {
            proof {
                lemma_last_dot_is(name@, i as int);
            }
            let tail = slice_to_vec(slice_subrange(name, i + 1, name.len()));
            assert(tail@ == name@.skip(i + 1));
            return Some(tail);
        }
    }
    proof {
        lemma_last_dot_none(name@);
    }
    None
}

/// The file name that a path ends in: its last segment, if it has one.
pub open spec fn file_name_of(path: Seq<u8>) -> Option<Seq<u8>> {
    let segments = segments_of(path);
    if segments.len() > 0 {
        Some(segments.last())
    } else {
        None
    }
}

/// The extension of the file that a path names, if it has one.
pub open spec fn path_extension_of(path: Seq<u8>) -> Option<Seq<u8>> {
    match file_name_of(path) {
        Some(name) => extension_of(name),
        None => None,
    }
}

/// The extension of the file that a path names, if it has one.
pub fn path_extension(path: &[u8]) -> (found: Option<Vec<u8>>)
    ensures
        match found {
            Some(bytes) => path_extension_of(path@) == Some(bytes@),
            None => path_extension_of(path@) is None,
        },
{
    let segments = split_segments(path);
    if segments.len() == 0 {
        return None;
    }
    let name: &Vec<u8> = &segments[segments.len() - 1];
    assert(views(segments@).last() == name@);
    extension(name.as_slice())
}

} // verus!
