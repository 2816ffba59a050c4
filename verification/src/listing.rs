//! Logic over the backend's object listings: which listed objects match
//! a set of filter tokens, and which playback sinks are visible. The
//! listings arrive as the line-oriented text that the backend's
//! short-listing commands print; each line describes one object, with
//! the name by which the object can be addressed in its second
//! whitespace-separated field.

use vstd::prelude::*;
use crate::text::{
    contains_seq, contains_bytes, field1, second_field, split_lines, split_lines_spec,
    bytes_eq,
};

verus! {

/// Every filter token occurs somewhere in the line.
pub open spec fn line_matches(line: Seq<u8>, filters: Seq<Seq<u8>>) -> bool {
    forall|i: int| 0 <= i < filters.len() ==> contains_seq(line, filters[i])
}

/// The names (second field) of the lines on which every filter
/// token occurs, in listing order.
pub open spec fn matching_ids_spec(lines: Seq<Seq<u8>>, filters: Seq<Seq<u8>>) -> Seq<Seq<u8>>
    decreases lines.len(),
{
    if lines.len() == 0 {
        Seq::empty()
    } else {
        let rest = matching_ids_spec(lines.drop_last(), filters);
        let l = lines.last();
        if line_matches(l, filters) && field1(l) is Some {
            rest.push(field1(l).unwrap())
        } else {
            rest
        }
    }
}

/// The object names (second field) of all lines, excluding a given
/// name, in listing order.
pub open spec fn names_spec(lines: Seq<Seq<u8>>, exclude: Seq<u8>) -> Seq<Seq<u8>>
    decreases lines.len(),
{
    if lines.len() == 0 {
        Seq::empty()
    } else {
        let rest = names_spec(lines.drop_last(), exclude);
        let l = lines.last();
        if field1(l) is Some && field1(l).unwrap() != exclude {
            rest.push(field1(l).unwrap())
        } else {
            rest
        }
    }
}

/// Tests whether every filter token occurs in the line.
pub fn line_matches_exec(line: &[u8], filters: &Vec<Vec<u8>>) -> (r: bool)
    ensures
        r == line_matches(line@, filters.deep_view()),
{
    let n: usize = filters.len();
    let mut i: usize = 0;
    while i < n
        invariant
            n == filters@.len(),
            0 <= i <= n,
            forall|k: int| 0 <= k < i ==> contains_seq(line@, filters.deep_view()[k]),
        decreases n - i,
    {
        assert(filters.deep_view()[i as int] == filters@[i as int]@);
        if !contains_bytes(line, filters[i].as_slice()) {
            return false;
        }
        i += 1;
    }
    true
}

/// The names of the listed objects on which every filter token
/// occurs: the query half of the lifecycle manager's `ensure` and
/// `remove_all`.
pub fn matching_ids(listing: &[u8], filters: &Vec<Vec<u8>>) -> (r: Vec<Vec<u8>>)
    ensures
        r.deep_view() == matching_ids_spec(split_lines_spec(listing@), filters.deep_view()),
{
    let lines = split_lines(listing);
    let n: usize = lines.len();
    let mut r: Vec<Vec<u8>> = Vec::new();
    assert(r.deep_view() =~= matching_ids_spec(
        lines.deep_view().subrange(0, 0),
        filters.deep_view(),
    ));
    let mut i: usize = 0;
    while i < n
        invariant
            n == lines@.len(),
            0 <= i <= n,
            lines.deep_view() == split_lines_spec(listing@),
            r.deep_view() == matching_ids_spec(
                lines.deep_view().subrange(0, i as int),
                filters.deep_view(),
            ),
        decreases n - i,
    {
        let ghost prefix = lines.deep_view().subrange(0, i as int);
        let ghost prefix2 = lines.deep_view().subrange(0, i + 1);
        proof {
            assert(prefix2.drop_last() =~= prefix);
            assert(prefix2.last() == lines.deep_view()[i as int]);
            assert(lines.deep_view()[i as int] == lines@[i as int]@);
        }
        let line = lines[i].as_slice();
        if line_matches_exec(line, filters) {
            let f = second_field(line);
            match f {
                Some(v) => {
                    let ghost old_r = r.deep_view();
                    r.push(v);
                    proof {
                        assert(r.deep_view() =~~= old_r.push(v@));
                    }
                },
                None => {
                },
            }
        }
        i += 1;
    }
    proof {
        assert(lines.deep_view().subrange(0, n as int) =~= lines.deep_view());
    }
    r
}

/// The names of the listed playback sinks, leaving out the capture
/// sink itself.
pub fn listed_names(listing: &[u8], exclude: &[u8]) -> (r: Vec<Vec<u8>>)
    ensures
        r.deep_view() == names_spec(split_lines_spec(listing@), exclude@),
{
    let lines = split_lines(listing);
    let n: usize = lines.len();
    let mut r: Vec<Vec<u8>> = Vec::new();
    assert(r.deep_view() =~= names_spec(lines.deep_view().subrange(0, 0), exclude@));
    let mut i: usize = 0;
    while i < n
        invariant
            n == lines@.len(),
            0 <= i <= n,
            lines.deep_view() == split_lines_spec(listing@),
            r.deep_view() == names_spec(lines.deep_view().subrange(0, i as int), exclude@),
        decreases n - i,
    {
        let ghost prefix = lines.deep_view().subrange(0, i as int);
        let ghost prefix2 = lines.deep_view().subrange(0, i + 1);
        proof {
            assert(prefix2.drop_last() =~= prefix);
            assert(prefix2.last() == lines.deep_view()[i as int]);
            assert(lines.deep_view()[i as int] == lines@[i as int]@);
        }
        let line = lines[i].as_slice();
        let f = second_field(line);
        match f {
            Some(v) => {
                if !bytes_eq(v.as_slice(), exclude) {
                    let ghost old_r = r.deep_view();
                    r.push(v);
                    proof {
                        assert(r.deep_view() =~~= old_r.push(v@));
                    }
                }
            },
            None => {
            },
        }
        i += 1;
    }
    proof {
        assert(lines.deep_view().subrange(0, n as int) =~= lines.deep_view());
    }
    r
}

} // verus!
