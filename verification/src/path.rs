//! Relative paths as text: their segments between slashes.

use crate::text::{byte_count, byte_len, chars_of, same};
use vstd::prelude::*;

verus! {

/// The pieces of a text between separators.
pub open spec fn pieces(s: Seq<char>, separator: char) -> Seq<Seq<char>>
    decreases s.len(),
{
    if s.len() == 0 {
        seq![Seq::empty()]
    } else {
        let head = pieces(s.drop_last(), separator);
        if s.last() == separator {
            head.push(Seq::empty())
        } else {
            head.drop_last().push(head.last().push(s.last()))
        }
    }
}

pub proof fn lemma_pieces_some(s: Seq<char>, separator: char)
    ensures
        pieces(s, separator).len() > 0,
    decreases s.len(),
{
    if s.len() > 0 {
        lemma_pieces_some(s.drop_last(), separator);
    }
}

/// The pieces of a text between separators.
pub fn split(s: &str, separator: char) -> (r: Vec<String>)
    ensures
        r.deep_view() == pieces(s@, separator),
        r@.len() > 0,
{
    let v = chars_of(s);
    let mut out: Vec<String> = Vec::new();
    let mut current = String::new();
    let mut i: usize = 0;
    assert(v@.take(0) =~= Seq::empty());
    assert(out.deep_view().push(current@) =~= pieces(v@.take(0), separator));
    while i < v.len()
        invariant
            i <= v@.len(),
            out.deep_view().push(current@) == pieces(v@.take(i as int), separator),
        decreases v@.len() - i,
    {
        let ghost so_far = out.deep_view();
        let ghost line = current@;
        assert(v@.take(i + 1).drop_last() =~= v@.take(i as int));
        assert(so_far.push(line).drop_last() =~= so_far);
        if v[i] == separator {
            out.push(current);
            current = String::new();
            assert(out.deep_view() =~= so_far.push(line));
        } else {
            current.push(v[i]);
        }
        i += 1;
    }
    let ghost so_far = out.deep_view();
    assert(v@.take(i as int) =~= v@);
    out.push(current);
    assert(out.deep_view() =~= so_far.push(current@));
    out
}

/// Whether no segment of a path climbs to the parent directory.
pub open spec fn stays_inside(path: Seq<char>) -> bool {
    !pieces(path, '/').contains(".."@)
}

/// Whether a segment names something.
pub open spec fn names_something(segment: Seq<char>) -> bool {
    segment.len() > 0 && segment != "."@
}

/// Whether a path, relative to the workspace, names a file in it: it has at most so many bytes,
/// does not start at the root, does not climb, and some segment names something.
pub open spec fn names_file_inside(path: Seq<char>, max_bytes: nat) -> bool {
    &&& byte_len(path) <= max_bytes
    &&& pieces(path, '/')[0].len() > 0
    &&& stays_inside(path)
    &&& exists|i: int|
        0 <= i < pieces(path, '/').len() && names_something(#[trigger] pieces(path, '/')[i])
}

/// Whether a path is relative and made of plain names: not empty, not from the root or from
/// the directory itself, and nowhere up.
pub open spec fn plain_relative(path: Seq<char>) -> bool {
    &&& pieces(path, '/')[0].len() > 0
    &&& pieces(path, '/')[0] != "."@
    &&& stays_inside(path)
}

fn climbs(segments: &Vec<String>) -> (r: bool)
    ensures
        r == segments.deep_view().contains(".."@),
{
    crate::table::holds(segments, "..")
}

/// Whether a path, relative to the workspace, names a file in it.
pub fn is_file_inside(path: &str, max_bytes: usize) -> (r: bool)
    ensures
        r == names_file_inside(path@, max_bytes as nat),
{
    let segments = split(path, '/');
    assert(segments.deep_view()[0] == segments@[0]@);
    if byte_count(path) > max_bytes || segments[0].as_str().is_empty() || climbs(&segments) {
        return false;
    }
    let mut i: usize = 0;
    while i < segments.len()
        invariant
            i <= segments@.len(),
            segments.deep_view() == pieces(path@, '/'),
            byte_len(path@) <= max_bytes,
            pieces(path@, '/')[0].len() > 0,
            stays_inside(path@),
            forall|j: int| 0 <= j < i ==> !names_something(#[trigger] segments.deep_view()[j]),
        decreases segments@.len() - i,
    {
        assert(segments.deep_view()[i as int] == segments@[i as int]@);
        if !segments[i].as_str().is_empty() && !same(&segments[i], ".") {
            assert(names_something(pieces(path@, '/')[i as int]));
            return true;
        }
        i += 1;
    }
    false
}

/// Whether a path is relative and made of plain names.
pub fn valid_relative_path(path: &str) -> (r: bool)
    ensures
        r == plain_relative(path@),
{
    let segments = split(path, '/');
    assert(segments.deep_view()[0] == segments@[0]@);
    !segments[0].as_str().is_empty() && !same(&segments[0], ".") && !climbs(&segments)
}

/// A plain relative path names a file inside the workspace, if it is short enough.
pub proof fn plain_paths_stay_inside(path: Seq<char>, max_bytes: nat)
    requires
        plain_relative(path),
        byte_len(path) <= max_bytes,
    ensures
        names_file_inside(path, max_bytes),
{
    lemma_pieces_some(path, '/');
    assert(names_something(pieces(path, '/')[0]));
}

} // verus!
