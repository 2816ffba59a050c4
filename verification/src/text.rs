//! Byte-level text utilities for the line-oriented output of the audio
//! backend's listing commands: substring search, line splitting,
//! whitespace fields and decimal numbers.

use vstd::prelude::*;

verus! {

/// ASCII whitespace as it appears in backend listing output.
pub open spec fn is_ws(b: u8) -> bool {
    b == 32 || b == 9 || b == 13 || b == 10
}

/// ASCII decimal digit.
pub open spec fn is_digit(b: u8) -> bool {
    48 <= b <= 57
}

/// The needle `n` occurs in `h` starting at position `i`.
pub open spec fn occurs_at(h: Seq<u8>, n: Seq<u8>, i: int) -> bool {
    0 <= i && i + n.len() <= h.len() && h.subrange(i, i + n.len() as int) == n
}

/// The needle `n` occurs somewhere in `h`.
pub open spec fn contains_seq(h: Seq<u8>, n: Seq<u8>) -> bool {
    exists|i: int| occurs_at(h, n, i)
}

/// `h` begins with `n`.
pub open spec fn starts_with_seq(h: Seq<u8>, n: Seq<u8>) -> bool {
    n.len() <= h.len() && h.subrange(0, n.len() as int) == n
}

/// Length of the maximal whitespace prefix of `s`.
pub open spec fn ws_len(s: Seq<u8>) -> int
    decreases s.len(),
{
    if s.len() == 0 {
        0
    } else if !is_ws(s[0]) {
        0
    } else {
        1 + ws_len(s.drop_first())
    }
}

/// `s` with its leading whitespace removed.
pub open spec fn trimmed(s: Seq<u8>) -> Seq<u8> {
    s.subrange(ws_len(s), s.len() as int)
}

/// Length of the maximal digit prefix of `s`.
pub open spec fn digits_len(s: Seq<u8>) -> int
    decreases s.len(),
{
    if s.len() == 0 {
        0
    } else if !is_digit(s[0]) {
        0
    } else {
        1 + digits_len(s.drop_first())
    }
}

/// Position of the first occurrence of `b` in `s`, or `s.len()` if absent.
pub open spec fn first_pos(s: Seq<u8>, b: u8) -> int
    decreases s.len(),
{
    if s.len() == 0 {
        0
    } else if s[0] == b {
        0
    } else {
        1 + first_pos(s.drop_first(), b)
    }
}

/// Value of a sequence of decimal digit bytes, most significant first.
pub open spec fn dec_val(s: Seq<u8>) -> int
    decreases s.len(),
{
    if s.len() == 0 {
        0
    } else {
        dec_val(s.drop_last()) * 10 + (s.last() - 48)
    }
}

pub proof fn lemma_ws_len(s: Seq<u8>)
    ensures
        0 <= ws_len(s) <= s.len(),
        forall|k: int| 0 <= k < ws_len(s) ==> is_ws(s[k]),
        ws_len(s) < s.len() ==> !is_ws(s[ws_len(s)]),
    decreases s.len(),
{
    if s.len() > 0 && is_ws(s[0]) {
        lemma_ws_len(s.drop_first());
        assert forall|k: int| 0 <= k < ws_len(s) implies is_ws(s[k]) by {
            if k >= 1 {
                assert(is_ws(s.drop_first()[k - 1]));
            }
        }
    }
}

pub proof fn lemma_digits_len(s: Seq<u8>)
    ensures
        0 <= digits_len(s) <= s.len(),
        forall|k: int| 0 <= k < digits_len(s) ==> is_digit(s[k]),
        digits_len(s) < s.len() ==> !is_digit(s[digits_len(s)]),
    decreases s.len(),
{
    if s.len() > 0 && is_digit(s[0]) {
        lemma_digits_len(s.drop_first());
        assert forall|k: int| 0 <= k < digits_len(s) implies is_digit(s[k]) by {
            if k >= 1 {
                assert(is_digit(s.drop_first()[k - 1]));
            }
        }
    }
}

pub proof fn lemma_first_pos(s: Seq<u8>, b: u8)
    ensures
        0 <= first_pos(s, b) <= s.len(),
        forall|k: int| 0 <= k < first_pos(s, b) ==> s[k] != b,
        first_pos(s, b) < s.len() ==> s[first_pos(s, b)] == b,
    decreases s.len(),
{
    if s.len() > 0 && s[0] != b {
        lemma_first_pos(s.drop_first(), b);
        assert forall|k: int| 0 <= k < first_pos(s, b) implies s[k] != b by {
            if k >= 1 {
                assert(s.drop_first()[k - 1] != b);
            }
        }
    }
}

/// Compares `n` against the bytes of `h` starting at `i`.
pub fn occurs_at_exec(h: &[u8], n: &[u8], i: usize) -> (r: bool)
    requires
        i + n@.len() <= h@.len(),
    ensures
        r == occurs_at(h@, n@, i as int),
{
    let n_len: usize = n.len();
    let h_len: usize = h.len();
    let mut j: usize = 0;
    while j < n_len
        invariant
            i + n@.len() <= h@.len(),
            n_len == n@.len(),
            h_len == h@.len(),
            0 <= j <= n_len,
            forall|k: int| 0 <= k < j ==> h@[i + k] == n@[k],
        decreases n_len - j,
    {
        if h[i + j] != n[j] {
            assert(h@.subrange(i as int, i + n@.len()) != n@) by {
                assert(h@.subrange(i as int, i + n@.len())[j as int] == h@[i + j]);
            }
            return false;
        }
        j += 1;
    }
    assert(h@.subrange(i as int, i + n@.len()) =~= n@);
    true
}

/// Substring search by scanning every start position.
pub fn contains_bytes(h: &[u8], n: &[u8]) -> (r: bool)
    ensures
        r == contains_seq(h@, n@),
{
    if n.len() > h.len() {
        assert(forall|i: int| !occurs_at(h@, n@, i));
        return false;
    }
    let end: usize = h.len() - n.len();
    let mut i: usize = 0;
    loop
        invariant
            n@.len() <= h@.len(),
            end == h@.len() - n@.len(),
            0 <= i <= end,
            forall|k: int| 0 <= k < i ==> !occurs_at(h@, n@, k),
        decreases end - i,
    {
        if occurs_at_exec(h, n, i) {
            return true;
        }
        if i == end {
            assert(forall|k: int| k > end ==> !occurs_at(h@, n@, k));
            return false;
        }
        i += 1;
    }
}

/// Prefix test.
pub fn starts_with_bytes(h: &[u8], n: &[u8]) -> (r: bool)
    ensures
        r == starts_with_seq(h@, n@),
{
    if n.len() > h.len() {
        return false;
    }
    occurs_at_exec(h, n, 0)
}

/// Byte-for-byte equality of two byte strings.
pub fn bytes_eq(a: &[u8], b: &[u8]) -> (r: bool)
    ensures
        r == (a@ == b@),
{
    if a.len() != b.len() {
        return false;
    }
    let r = occurs_at_exec(a, b, 0);
    if r {
        assert(a@.subrange(0, b@.len() as int) =~= a@);
    } else {
        assert(a@.subrange(0, b@.len() as int) =~= a@);
    }
    r
}

/// Copies a byte string into an owned vector.
pub fn copy_bytes(a: &[u8]) -> (r: Vec<u8>)
    ensures
        r@ == a@,
{
    let mut r: Vec<u8> = Vec::new();
    r.extend_from_slice(a);
    assert(r@ =~= a@);
    r
}

/// Index of the first non-whitespace byte of `s` (or `s.len()`).
pub fn ws_len_exec(s: &[u8]) -> (r: usize)
    ensures
        r == ws_len(s@),
{
    proof {
        lemma_ws_len(s@);
    }
    let s_len: usize = s.len();
    let mut i: usize = 0;
    while i < s_len && (s[i] == 32 || s[i] == 9 || s[i] == 13 || s[i] == 10)
        invariant
            s_len == s@.len(),
            0 <= i <= s_len,
            forall|k: int| 0 <= k < i ==> is_ws(s@[k]),
        decreases s_len - i,
    {
        i += 1;
    }
    proof {
        if i < ws_len(s@) {
            assert(is_ws(s@[i as int]));
        }
        if ws_len(s@) < i {
            assert(!is_ws(s@[ws_len(s@)]));
        }
    }
    i
}

/// Length of the digit run at the start of `s`.
pub fn digits_len_exec(s: &[u8]) -> (r: usize)
    ensures
        r == digits_len(s@),
{
    proof {
        lemma_digits_len(s@);
    }
    let s_len: usize = s.len();
    let mut i: usize = 0;
    while i < s_len && 48 <= s[i] && s[i] <= 57
        invariant
            s_len == s@.len(),
            0 <= i <= s_len,
            forall|k: int| 0 <= k < i ==> is_digit(s@[k]),
        decreases s_len - i,
    {
        i += 1;
    }
    proof {
        if i < digits_len(s@) {
            assert(is_digit(s@[i as int]));
        }
        if digits_len(s@) < i {
            assert(!is_digit(s@[digits_len(s@)]));
        }
    }
    i
}

/// Position of the first occurrence of `b` in `s`, or `s.len()`.
pub fn first_pos_exec(s: &[u8], b: u8) -> (r: usize)
    ensures
        r == first_pos(s@, b),
{
    proof {
        lemma_first_pos(s@, b);
    }
    let s_len: usize = s.len();
    let mut i: usize = 0;
    while i < s_len && s[i] != b
        invariant
            s_len == s@.len(),
            0 <= i <= s_len,
            forall|k: int| 0 <= k < i ==> s@[k] != b,
        decreases s_len - i,
    {
        i += 1;
    }
    proof {
        if i < first_pos(s@, b) {
            assert(s@[i as int] == b);
        }
        if first_pos(s@, b) < i {
            assert(s@[first_pos(s@, b)] != b);
        }
    }
    i
}

/// The lines of `t`, split at every newline byte. A trailing segment is
/// always present, so a text ending in a newline ends in an empty line;
/// the parsers ignore empty lines.
pub open spec fn split_lines_spec(t: Seq<u8>) -> Seq<Seq<u8>>
    decreases t.len(),
{
    if t.len() == 0 {
        seq![Seq::<u8>::empty()]
    } else if t.last() == 10 {
        split_lines_spec(t.drop_last()).push(Seq::empty())
    } else {
        let rest = split_lines_spec(t.drop_last());
        rest.update(rest.len() - 1, rest.last().push(t.last()))
    }
}

pub proof fn lemma_split_lines_nonempty(t: Seq<u8>)
    ensures
        split_lines_spec(t).len() >= 1,
    decreases t.len(),
{
    if t.len() > 0 {
        lemma_split_lines_nonempty(t.drop_last());
    }
}

/// Splits backend output into lines at newline bytes.
pub fn split_lines(t: &[u8]) -> (r: Vec<Vec<u8>>)
    ensures
        r.deep_view() == split_lines_spec(t@),
{
    let t_len: usize = t.len();
    let mut r: Vec<Vec<u8>> = Vec::new();
    let mut cur: Vec<u8> = Vec::new();
    let mut i: usize = 0;
    assert(split_lines_spec(t@.subrange(0, 0)) =~~= r.deep_view().push(cur@));
    while i < t_len
        invariant
            t_len == t@.len(),
            0 <= i <= t_len,
            split_lines_spec(t@.subrange(0, i as int)) == r.deep_view().push(cur@),
        decreases t_len - i,
    {
        let ghost prefix = t@.subrange(0, i as int);
        let ghost prefix2 = t@.subrange(0, i + 1);
        proof {
            assert(prefix2.drop_last() =~= prefix);
            lemma_split_lines_nonempty(prefix);
        }
        let b = t[i];
        if b == 10 {
            let ghost old_r = r.deep_view();
            let ghost old_cur = cur@;
            r.push(cur);
            cur = Vec::new();
            proof {
                assert(r.deep_view() =~~= old_r.push(old_cur));
                assert(split_lines_spec(prefix2) =~~= r.deep_view().push(cur@));
            }
        } else {
            let ghost old_r = r.deep_view();
            let ghost old_cur = cur@;
            cur.push(b);
            proof {
                let rest = split_lines_spec(prefix);
                assert(rest == old_r.push(old_cur));
                assert(rest.last() == old_cur);
                assert(split_lines_spec(prefix2) == rest.update(
                    rest.len() - 1,
                    old_cur.push(b),
                ));
                assert(split_lines_spec(prefix2) =~~= r.deep_view().push(cur@));
            }
        }
        i += 1;
    }
    proof {
        assert(t@.subrange(0, t_len as int) =~= t@);
    }
    let ghost old_r = r.deep_view();
    let ghost old_cur = cur@;
    r.push(cur);
    proof {
        assert(r.deep_view() =~~= old_r.push(old_cur));
    }
    r
}

/// The whitespace-separated fields of a line, in order.
pub open spec fn fields_spec(s: Seq<u8>) -> Seq<Seq<u8>>
    decreases s.len(),
{
    if s.len() == 0 {
        Seq::empty()
    } else {
        let rest = fields_spec(s.drop_last());
        let b = s.last();
        if is_ws(b) {
            rest
        } else if s.len() >= 2 && !is_ws(s[s.len() - 2]) {
            rest.update(rest.len() - 1, rest.last().push(b))
        } else {
            rest.push(seq![b])
        }
    }
}

/// Splits a line into its whitespace-separated fields.
pub fn fields(s: &[u8]) -> (r: Vec<Vec<u8>>)
    ensures
        r.deep_view() == fields_spec(s@),
{
    let s_len: usize = s.len();
    let mut r: Vec<Vec<u8>> = Vec::new();
    let mut cur: Vec<u8> = Vec::new();
    let mut i: usize = 0;
    assert(fields_spec(s@.subrange(0, 0)) =~~= r.deep_view());
    while i < s_len
        invariant
            s_len == s@.len(),
            0 <= i <= s_len,
            cur@.len() > 0 ==> i > 0 && !is_ws(s@[i - 1]) && fields_spec(s@.subrange(0, i as int))
                == r.deep_view().push(cur@),
            cur@.len() == 0 ==> (i == 0 || is_ws(s@[i - 1])) && fields_spec(
                s@.subrange(0, i as int),
            ) == r.deep_view(),
        decreases s_len - i,
    {
        let ghost prefix = s@.subrange(0, i as int);
        let ghost prefix2 = s@.subrange(0, i + 1);
        proof {
            assert(prefix2.drop_last() =~= prefix);
        }
        let b = s[i];
        let b_ws = b == 32 || b == 9 || b == 13 || b == 10;
        if b_ws {
            if cur.len() > 0 {
                let ghost old_r = r.deep_view();
                let ghost old_cur = cur@;
                r.push(cur);
                cur = Vec::new();
                proof {
                    assert(r.deep_view() =~~= old_r.push(old_cur));
                    assert(fields_spec(prefix2) == r.deep_view());
                }
            } else {
                assert(fields_spec(prefix2) == r.deep_view());
            }
        } else {
            if cur.len() == 0 {
                cur.push(b);
                proof {
                    assert(fields_spec(prefix2) == fields_spec(prefix).push(seq![b]));
                    assert(fields_spec(prefix2) =~~= r.deep_view().push(cur@));
                }
            } else {
                let ghost old_cur = cur@;
                cur.push(b);
                proof {
                    let rest = fields_spec(prefix);
                    assert(rest == r.deep_view().push(old_cur));
                    assert(rest.last() == old_cur);
                    assert(prefix2.len() >= 2 && !is_ws(prefix2[prefix2.len() - 2]));
                    assert(fields_spec(prefix2) == rest.update(
                        rest.len() - 1,
                        old_cur.push(b),
                    ));
                    assert(fields_spec(prefix2) =~~= r.deep_view().push(cur@));
                }
            }
        }
        i += 1;
    }
    proof {
        assert(s@.subrange(0, s_len as int) =~= s@);
    }
    if cur.len() > 0 {
        let ghost old_r = r.deep_view();
        let ghost old_cur = cur@;
        r.push(cur);
        proof {
            assert(r.deep_view() =~~= old_r.push(old_cur));
        }
    }
    r
}

/// The second whitespace-separated field of a line, where the listing
/// commands place an object's name.
pub open spec fn field1(line: Seq<u8>) -> Option<Seq<u8>> {
    if fields_spec(line).len() >= 2 {
        Some(fields_spec(line)[1])
    } else {
        None
    }
}

/// Extracts the second whitespace-separated field of a line.
pub fn second_field(line: &[u8]) -> (r: Option<Vec<u8>>)
    ensures
        match r {
            Some(v) => field1(line@) == Some(v@),
            None => field1(line@) is None,
        },
{
    let fs = fields(line);
    if fs.len() >= 2 {
        assert(fs.deep_view()[1] == fs@[1]@);
        let v = copy_bytes(fs[1].as_slice());
        Some(v)
    } else {
        None
    }
}

pub proof fn lemma_dec_val_nonneg(s: Seq<u8>)
    requires
        forall|k: int| 0 <= k < s.len() ==> is_digit(s[k]),
    ensures
        dec_val(s) >= 0,
    decreases s.len(),
{
    if s.len() > 0 {
        lemma_dec_val_nonneg(s.drop_last());
    }
}

pub proof fn lemma_dec_val_prefix(s: Seq<u8>, l: int)
    requires
        0 <= l <= s.len(),
        forall|k: int| 0 <= k < s.len() ==> is_digit(s[k]),
    ensures
        dec_val(s.subrange(0, l)) <= dec_val(s),
    decreases s.len() - l,
{
    if l == s.len() {
        assert(s.subrange(0, l) =~= s);
    } else {
        let p = s.subrange(0, l);
        let p2 = s.subrange(0, l + 1);
        assert(p2.drop_last() =~= p);
        lemma_dec_val_nonneg(p);
        assert(dec_val(p2) == dec_val(p) * 10 + (s[l] - 48));
        lemma_dec_val_prefix(s, l + 1);
    }
}

/// Parses a run of decimal digits as a 64-bit number; reports numbers
/// too large for the type instead of wrapping.
pub fn parse_u64_digits(s: &[u8]) -> (r: Option<u64>)
    requires
        forall|k: int| 0 <= k < s@.len() ==> is_digit(s@[k]),
    ensures
        match r {
            Some(v) => v == dec_val(s@),
            None => dec_val(s@) > u64::MAX,
        },
{
    let s_len: usize = s.len();
    let mut acc: u64 = 0;
    let mut i: usize = 0;
    assert(dec_val(s@.subrange(0, 0)) == 0);
    while i < s_len
        invariant
            s_len == s@.len(),
            0 <= i <= s_len,
            forall|k: int| 0 <= k < s@.len() ==> is_digit(s@[k]),
            acc == dec_val(s@.subrange(0, i as int)),
        decreases s_len - i,
    {
        let ghost prefix = s@.subrange(0, i as int);
        let ghost prefix2 = s@.subrange(0, i + 1);
        proof {
            assert(prefix2.drop_last() =~= prefix);
        }
        let d: u8 = s[i] - 48;
        assert(0 <= d <= 9);
        if acc > (u64::MAX - (d as u64)) / 10 {
            proof {
                let q = (u64::MAX - (d as u64)) as int / 10;
                assert(q * 10 + 10 > u64::MAX - d);
                assert(acc * 10 >= (q + 1) * 10) by (nonlinear_arith)
                    requires
                        acc >= q + 1,
                ;
                assert(dec_val(prefix2) > u64::MAX);
                lemma_dec_val_prefix(s@, i + 1);
            }
            return None;
        }
        proof {
            let q = (u64::MAX - (d as u64)) as int / 10;
            assert(q * 10 <= u64::MAX - d);
            assert(acc * 10 <= q * 10) by (nonlinear_arith)
                requires
                    acc <= q,
            ;
        }
        acc = acc * 10 + (d as u64);
        i += 1;
    }
    proof {
        assert(s@.subrange(0, s_len as int) =~= s@);
    }
    Some(acc)
}

} // verus!
