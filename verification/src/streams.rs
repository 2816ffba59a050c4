//! Parser for the mixing server's stream listing: the introspection
//! output that interleaves `index:` lines with property lines such as
//! `application.name = "..."`. Each application name is attached to the
//! most recently seen stream index, in the order encountered.

use vstd::prelude::*;
use vstd::string::StringSliceAdditionalSpecFns;
use crate::text::{
    dec_val, digits_len, digits_len_exec, first_pos, first_pos_exec, lemma_digits_len,
    lemma_first_pos, lemma_ws_len, parse_u64_digits, split_lines, split_lines_spec,
    starts_with_bytes, starts_with_seq, trimmed, ws_len_exec, copy_bytes,
};

verus! {

/// One discovered playback stream: its numeric identifier and the
/// human-readable application label attached to it.
pub struct StreamEntry {
    pub id: u64,
    pub label: Vec<u8>,
}

/// Mathematical image of a `StreamEntry`.
#[verifier::ext_equal]
pub struct StreamEntryV {
    pub id: u64,
    pub label: Seq<u8>,
}

impl DeepView for StreamEntry {
    type V = StreamEntryV;

    open spec fn deep_view(&self) -> StreamEntryV {
        StreamEntryV { id: self.id, label: self.label@ }
    }
}

/// The key that opens a stream-identifier line.
pub open spec fn key_index() -> Seq<u8> {
    "index:".spec_bytes()
}

/// The key that opens an application-name property line.
pub open spec fn key_app_name() -> Seq<u8> {
    "application.name".spec_bytes()
}

/// The stream identifier announced by a line: after leading
/// whitespace, `index:`, more whitespace, then a run of digits that
/// fits the identifier type.
pub open spec fn line_index_id(l: Seq<u8>) -> Option<u64> {
    let t = trimmed(l);
    if starts_with_seq(t, key_index()) {
        let rest = t.subrange(key_index().len() as int, t.len() as int);
        let d = trimmed(rest);
        let digits = d.subrange(0, digits_len(d));
        if digits_len(d) > 0 && dec_val(digits) <= u64::MAX {
            Some(dec_val(digits) as u64)
        } else {
            None
        }
    } else {
        None
    }
}

/// The application name announced by a line: after leading whitespace,
/// `application.name`, whitespace, `=`, then the text between the
/// first pair of double quotes.
pub open spec fn line_app_name(l: Seq<u8>) -> Option<Seq<u8>> {
    let t = trimmed(l);
    if starts_with_seq(t, key_app_name()) {
        let rest = t.subrange(key_app_name().len() as int, t.len() as int);
        let r2 = trimmed(rest);
        if r2.len() > 0 && r2[0] == 61 {
            let r3 = r2.drop_first();
            let q1 = first_pos(r3, 34);
            if q1 < r3.len() {
                let r4 = r3.subrange(q1 + 1, r3.len() as int);
                let q2 = first_pos(r4, 34);
                if q2 < r4.len() {
                    Some(r4.subrange(0, q2))
                } else {
                    None
                }
            } else {
                None
            }
        } else {
            None
        }
    } else {
        None
    }
}

/// The entries named by the listing lines, scanning forward while
/// remembering the most recently seen stream identifier. A name line
/// seen before any identifier names no entry.
pub open spec fn stream_entries_from(lines: Seq<Seq<u8>>, cur: Option<u64>) -> Seq<StreamEntryV>
    decreases lines.len(),
{
    if lines.len() == 0 {
        Seq::empty()
    } else {
        let l = lines.first();
        let rest = lines.drop_first();
        match line_index_id(l) {
            Some(id) => stream_entries_from(rest, Some(id)),
            None => match line_app_name(l) {
                Some(name) => match cur {
                    Some(id) => seq![StreamEntryV { id, label: name }] + stream_entries_from(
                        rest,
                        cur,
                    ),
                    None => stream_entries_from(rest, cur),
                },
                None => stream_entries_from(rest, cur),
            },
        }
    }
}

/// The entries of a whole stream listing.
pub open spec fn stream_entries_spec(listing: Seq<u8>) -> Seq<StreamEntryV> {
    stream_entries_from(split_lines_spec(listing), None)
}

/// Drops leading whitespace.
pub fn trim_ws(s: &[u8]) -> (r: &[u8])
    ensures
        r@ == trimmed(s@),
{
    let i = ws_len_exec(s);
    proof {
        lemma_ws_len(s@);
    }
    &s[i..s.len()]
}

/// Reads the stream identifier a line announces, if any.
pub fn parse_index_line(line: &[u8]) -> (r: Option<u64>)
    ensures
        r == line_index_id(line@),
{
    let t = trim_ws(line);
    let key = "index:".as_bytes();
    if starts_with_bytes(t, key) {
        let rest = &t[key.len()..t.len()];
        let d = trim_ws(rest);
        let dl = digits_len_exec(d);
        proof {
            lemma_digits_len(d@);
        }
        if dl > 0 {
            let digits = &d[0..dl];
            parse_u64_digits(digits)
        } else {
            None
        }
    } else {
        None
    }
}

/// Reads the quoted application name a line announces, if any.
pub fn parse_app_name_line(line: &[u8]) -> (r: Option<Vec<u8>>)
    ensures
        match r {
            Some(v) => line_app_name(line@) == Some(v@),
            None => line_app_name(line@) is None,
        },
{
    let t = trim_ws(line);
    let key = "application.name".as_bytes();
    if starts_with_bytes(t, key) {
        let rest = &t[key.len()..t.len()];
        let r2 = trim_ws(rest);
        if r2.len() > 0 && r2[0] == 61 {
            let r3 = &r2[1..r2.len()];
            assert(r3@ =~= r2@.drop_first());
            let q1 = first_pos_exec(r3, 34);
            proof {
                lemma_first_pos(r3@, 34);
            }
            if q1 < r3.len() {
                let r4 = &r3[q1 + 1..r3.len()];
                let q2 = first_pos_exec(r4, 34);
                proof {
                    lemma_first_pos(r4@, 34);
                }
                if q2 < r4.len() {
                    Some(copy_bytes(&r4[0..q2]))
                } else {
                    None
                }
            } else {
                None
            }
        } else {
            None
        }
    } else {
        None
    }
}

/// Parses a stream listing into its entries, pairing each application
/// name with the most recently seen preceding stream identifier.
pub fn parse_stream_listing(listing: &[u8]) -> (r: Vec<StreamEntry>)
    ensures
        r.deep_view() == stream_entries_spec(listing@),
{
    let lines = split_lines(listing);
    let n: usize = lines.len();
    let mut r: Vec<StreamEntry> = Vec::new();
    let mut cur: Option<u64> = None;
    let mut i: usize = 0;
    assert(lines.deep_view().subrange(0, n as int) =~= lines.deep_view());
    assert(r.deep_view() + stream_entries_from(
        lines.deep_view().subrange(0, n as int),
        None,
    ) =~= stream_entries_from(lines.deep_view(), None));
    while i < n
        invariant
            n == lines@.len(),
            0 <= i <= n,
            lines.deep_view() == split_lines_spec(listing@),
            stream_entries_from(lines.deep_view(), None) == r.deep_view()
                + stream_entries_from(lines.deep_view().subrange(i as int, n as int), cur),
        decreases n - i,
    {
        let ghost rest = lines.deep_view().subrange(i as int, n as int);
        let ghost rest2 = lines.deep_view().subrange(i + 1, n as int);
        proof {
            assert(rest.first() == lines.deep_view()[i as int]);
            assert(rest.drop_first() =~= rest2);
            assert(lines.deep_view()[i as int] == lines@[i as int]@);
        }
        let line = lines[i].as_slice();
        match parse_index_line(line) {
            Some(id) => {
                cur = Some(id);
            },
            None => {
                let name = parse_app_name_line(line);
                match name {
                    Some(label) => {
                        match cur {
                            Some(id) => {
                                let ghost old_r = r.deep_view();
                                let ghost lv = label@;
                                r.push(StreamEntry { id, label });
                                proof {
                                    assert(r.deep_view() =~~= old_r.push(
                                        StreamEntryV { id, label: lv },
                                    ));
                                    assert(old_r + (seq![StreamEntryV { id, label: lv }]
                                        + stream_entries_from(rest2, cur)) =~= r.deep_view()
                                        + stream_entries_from(rest2, cur));
                                }
                            },
                            None => {
                            },
                        }
                    },
                    None => {
                    },
                }
            },
        }
        i += 1;
    }
    proof {
        assert(lines.deep_view().subrange(n as int, n as int) =~= Seq::<Seq<u8>>::empty());
        assert(r.deep_view() + Seq::<StreamEntryV>::empty() =~= r.deep_view());
    }
    r
}

} // verus!
