//! Parsing of the privileged fast-path attribution source: a text mapping of
//! processes to the socket inodes they hold, one process per line, in the
//! shape
//!
//! ```text
//! PID 'PROCESS NAME' INODE INODE INODE...
//! ```
//!
//! The grammar is given as spec functions over raw bytes and every parser is
//! proved against it. A malformed line is skipped, a token that is no inode
//! number is dropped; the parsers never panic.

use vstd::prelude::*;

verus! {

/// The single-quote byte that brackets the process name.
pub const QUOTE: u8 = 39;

/// The space byte that separates inode tokens.
pub const SPACE: u8 = 32;

/// Horizontal tab, trimmed at field edges.
pub const TAB: u8 = 9;

/// Carriage return, trimmed at field edges.
pub const CARRIAGE_RETURN: u8 = 13;

/// The line separator of the source.
pub const NEWLINE: u8 = 10;

/// A leading minus sign of a process id.
pub const MINUS: u8 = 45;

// ----------------------------------------------------------------------
// Decimal numbers

/// An ASCII decimal digit.
pub open spec fn is_digit(b: u8) -> bool {
    48 <= b && b <= 57
}

/// Every byte is an ASCII decimal digit.
pub open spec fn all_digits(s: Seq<u8>) -> bool {
    forall|i: int| 0 <= i < s.len() ==> is_digit(#[trigger] s[i])
}

/// The value of a decimal digit string, most significant digit first.
pub open spec fn dec_val(s: Seq<u8>) -> int
    decreases s.len(),
{
    if s.len() == 0 {
        0
    } else {
        dec_val(s.drop_last()) * 10 + (s.last() - 48)
    }
}

pub proof fn lemma_dec_val_nonneg(s: Seq<u8>)
    requires
        all_digits(s),
    ensures
        dec_val(s) >= 0,
    decreases s.len(),
{
    if s.len() > 0 {
        assert(all_digits(s.drop_last()));
        lemma_dec_val_nonneg(s.drop_last());
    }
}

/// A digit string's value is at least the value of any of its prefixes.
pub proof fn lemma_dec_val_prefix_le(s: Seq<u8>, j: int)
    requires
        all_digits(s),
        0 <= j <= s.len(),
    ensures
        dec_val(s.take(j)) <= dec_val(s),
    decreases s.len() - j,
{
    if j == s.len() {
        assert(s.take(j) =~= s);
    } else {
        assert(s.take(j + 1).drop_last() =~= s.take(j));
        assert(all_digits(s.take(j)));
        lemma_dec_val_nonneg(s.take(j));
        assert(s.take(j + 1).last() == s[j]);
        assert(dec_val(s.take(j + 1)) == dec_val(s.take(j)) * 10 + (s[j] - 48));
        lemma_dec_val_prefix_le(s, j + 1);
    }
}

/// What a whole token parses to as an unsigned number: its decimal value,
/// provided it is a nonempty digit string whose value fits.
pub open spec fn spec_token_u64(s: Seq<u8>) -> Option<u64> {
    if s.len() > 0 && all_digits(s) && dec_val(s) <= u64::MAX {
        Some(dec_val(s) as u64)
    } else {
        None
    }
}

/// Parse a whole byte string as an unsigned decimal number.
pub fn parse_u64_dec(s: &[u8]) -> (r: Option<u64>)
    ensures
        r == spec_token_u64(s@),
{
    if s.len() == 0 {
        return None;
    }
    let n = s.len();
    let mut acc: u64 = 0;
    for i in 0..n
        invariant
            n == s@.len(),
            all_digits(s@.take(i as int)),
            acc == dec_val(s@.take(i as int)),
    {
        let b = s[i];
        if b < 48 || b > 57 {
            assert(!is_digit(s@[i as int]));
            return None;
        }
        let d: u64 = (b - 48) as u64;
        if acc > (u64::MAX - d) / 10 {
            proof {
                assert(s@.take(i + 1).drop_last() =~= s@.take(i as int));
                assert(dec_val(s@.take(i + 1)) == acc * 10 + d);
                if all_digits(s@) {
                    lemma_dec_val_prefix_le(s@, i + 1);
                    assert(dec_val(s@) > u64::MAX);
                }
            }
            return None;
        }
        proof {
            assert(s@.take(i + 1).drop_last() =~= s@.take(i as int));
        }
        acc = acc * 10 + d;
    }
    proof {
        assert(s@.take(n as int) =~= s@);
    }
    Some(acc)
}

// ----------------------------------------------------------------------
// Searching and trimming

/// The first position at or after `from` holding `b`, or the length where
/// there is none.
pub open spec fn first_index_from(s: Seq<u8>, b: u8, from: int) -> int
    decreases s.len() - from,
    when 0 <= from <= s.len()
{
    if from >= s.len() {
        s.len() as int
    } else if s[from] == b {
        from
    } else {
        first_index_from(s, b, from + 1)
    }
}

pub proof fn lemma_first_index_from_bounds(s: Seq<u8>, b: u8, from: int)
    requires
        0 <= from <= s.len(),
    ensures
        from <= first_index_from(s, b, from) <= s.len(),
        first_index_from(s, b, from) < s.len() ==> s[first_index_from(s, b, from)] == b,
    decreases s.len() - from,
{
    if from < s.len() && s[from] != b {
        lemma_first_index_from_bounds(s, b, from + 1);
    }
}

/// Find the first occurrence of `b` at or after `from`; the slice's length
/// means not found.
pub fn find_byte(s: &[u8], b: u8, from: usize) -> (r: usize)
    requires
        from <= s@.len(),
    ensures
        r == first_index_from(s@, b, from as int),
        from <= r <= s@.len(),
        r < s@.len() ==> s@[r as int] == b,
{
    proof {
        lemma_first_index_from_bounds(s@, b, from as int);
    }
    let mut i = from;
    while i < s.len()
        invariant
            from <= i <= s@.len(),
            first_index_from(s@, b, from as int) == first_index_from(s@, b, i as int),
        decreases s@.len() - i,
    {
        if s[i] == b {
            return i;
        }
        i = i + 1;
    }
    s.len()
}

/// A byte trimmed away at field edges.
pub open spec fn is_space(b: u8) -> bool {
    b == SPACE || b == TAB || b == CARRIAGE_RETURN
}

/// The string without its leading trimmed bytes.
pub open spec fn trim_front(s: Seq<u8>) -> Seq<u8>
    decreases s.len(),
{
    if s.len() > 0 && is_space(s.first()) {
        trim_front(s.drop_first())
    } else {
        s
    }
}

/// The string without its trailing trimmed bytes.
pub open spec fn trim_back(s: Seq<u8>) -> Seq<u8>
    decreases s.len(),
{
    if s.len() > 0 && is_space(s.last()) {
        trim_back(s.drop_last())
    } else {
        s
    }
}

/// The string without leading and trailing trimmed bytes.
pub open spec fn trimmed(s: Seq<u8>) -> Seq<u8> {
    trim_back(trim_front(s))
}

proof fn lemma_trim_front_skip(s: Seq<u8>, a: int)
    requires
        0 <= a <= s.len(),
        forall|j: int| 0 <= j < a ==> is_space(#[trigger] s[j]),
        a == s.len() || !is_space(s[a]),
    ensures
        trim_front(s) == s.skip(a),
    decreases a,
{
    if a == 0 {
        assert(s.skip(0) =~= s);
    } else {
        assert(is_space(s.first()));
        let t = s.drop_first();
        assert(t =~= s.skip(1));
        lemma_trim_front_skip(t, a - 1);
        assert(t.skip(a - 1) =~= s.skip(a));
    }
}

proof fn lemma_trim_back_take(s: Seq<u8>, e: int)
    requires
        0 <= e <= s.len(),
        forall|j: int| e <= j < s.len() ==> is_space(#[trigger] s[j]),
        e == 0 || !is_space(s[e - 1]),
    ensures
        trim_back(s) == s.take(e),
    decreases s.len() - e,
{
    if e == s.len() {
        assert(s.take(e) =~= s);
    } else {
        assert(is_space(s.last()));
        let t = s.drop_last();
        lemma_trim_back_take(t, e);
        assert(t.take(e) =~= s.take(e));
    }
}

/// Trim spaces, tabs and carriage returns from both ends.
pub fn trim_slice<'a>(s: &'a [u8]) -> (r: &'a [u8])
    ensures
        r@ == trimmed(s@),
{
    let mut a: usize = 0;
    while a < s.len() && (s[a] == SPACE || s[a] == TAB || s[a] == CARRIAGE_RETURN)
        invariant
            0 <= a <= s@.len(),
            forall|j: int| 0 <= j < a ==> is_space(#[trigger] s@[j]),
        decreases s@.len() - a,
    {
        a = a + 1;
    }
    let mut e: usize = s.len();
    while e > a && (s[e - 1] == SPACE || s[e - 1] == TAB || s[e - 1] == CARRIAGE_RETURN)
        invariant
            a <= e <= s@.len(),
            forall|j: int| e <= j < s@.len() ==> is_space(#[trigger] s@[j]),
        decreases e,
    {
        e = e - 1;
    }
    proof {
        lemma_trim_front_skip(s@, a as int);
        lemma_trim_back_take(s@.skip(a as int), e - a);
        assert(s@.skip(a as int).take(e - a) =~= s@.subrange(a as int, e as int));
    }
    vstd::slice::slice_subrange(s, a, e)
}

// ----------------------------------------------------------------------
// Process ids

/// What the field before the first quote parses to: an optionally negated
/// decimal process id that fits an `i32`.
pub open spec fn spec_parse_pid(s: Seq<u8>) -> Option<i32> {
    if s.len() > 0 && s[0] == MINUS {
        let d = s.skip(1);
        if d.len() > 0 && all_digits(d) && dec_val(d) <= 0x8000_0000 {
            Some((0 - dec_val(d)) as i32)
        } else {
            None
        }
    } else if s.len() > 0 && all_digits(s) && dec_val(s) <= i32::MAX {
        Some(dec_val(s) as i32)
    } else {
        None
    }
}

/// Parse a whole byte string as a signed decimal process id.
pub fn parse_pid(s: &[u8]) -> (r: Option<i32>)
    ensures
        r == spec_parse_pid(s@),
{
    if s.len() == 0 {
        return None;
    }
    if s[0] == MINUS {
        let digits = vstd::slice::slice_subrange(s, 1, s.len());
        assert(digits@ =~= s@.skip(1));
        match parse_u64_dec(digits) {
            Some(v) => {
                if v <= 0x8000_0000 {
                    let r = (-(v as i64)) as i32;
                    proof {
                        lemma_dec_val_nonneg(s@.skip(1));
                        assert(v == dec_val(s@.skip(1)));
                        assert(-(v as i64) == 0 - dec_val(s@.skip(1)));
                        assert(r == (0 - dec_val(s@.skip(1))) as i32);
                    }
                    assert(Some(r) == spec_parse_pid(s@));
                    Some(r)
                } else {
                    proof {
                        lemma_dec_val_nonneg(s@.skip(1));
                    }
                    assert(spec_parse_pid(s@) is None);
                    None
                }
            },
            None => {
                assert(spec_parse_pid(s@) is None);
                None
            },
        }
    } else {
        match parse_u64_dec(s) {
            Some(v) => {
                if v <= i32::MAX as u64 {
                    let r = v as i32;
                    proof {
                        lemma_dec_val_nonneg(s@);
                        assert(v == dec_val(s@));
                        assert(r == dec_val(s@) as i32);
                    }
                    assert(Some(r) == spec_parse_pid(s@));
                    Some(r)
                } else {
                    proof {
                        lemma_dec_val_nonneg(s@);
                    }
                    assert(spec_parse_pid(s@) is None);
                    None
                }
            },
            None => {
                assert(spec_parse_pid(s@) is None);
                None
            },
        }
    }
}

// ----------------------------------------------------------------------
// Inode token lists

/// The sequence an optional parsed token contributes.
pub open spec fn opt_to_seq(o: Option<u64>) -> Seq<u64> {
    match o {
        Some(v) => seq![v],
        None => Seq::<u64>::empty(),
    }
}

/// The inode numbers of the space-separated tokens from `from` on: each
/// token that is a valid number contributes its value, every other token is
/// dropped.
pub open spec fn spec_parse_inodes_from(s: Seq<u8>, from: int) -> Seq<u64>
    decreases s.len() - from,
    when 0 <= from <= s.len()
    via spec_parse_inodes_from_decreases
{
    if from == s.len() {
        Seq::<u64>::empty()
    } else {
        let sp = first_index_from(s, SPACE, from);
        if sp == s.len() {
            opt_to_seq(spec_token_u64(s.subrange(from, s.len() as int)))
        } else {
            opt_to_seq(spec_token_u64(s.subrange(from, sp))) + spec_parse_inodes_from(s, sp + 1)
        }
    }
}

#[via_fn]
proof fn spec_parse_inodes_from_decreases(s: Seq<u8>, from: int) {
    if 0 <= from < s.len() {
        lemma_first_index_from_bounds(s, SPACE, from);
    }
}

/// Parse a space-separated inode token list.
pub fn parse_inodes(s: &[u8]) -> (r: Vec<u64>)
    ensures
        r@ == spec_parse_inodes_from(s@, 0),
{
    let mut r: Vec<u64> = Vec::new();
    let mut pos: usize = 0;
    while pos < s.len()
        invariant
            0 <= pos <= s@.len(),
            spec_parse_inodes_from(s@, 0) == r@ + spec_parse_inodes_from(s@, pos as int),
        decreases s@.len() - pos,
    {
        let sp = find_byte(s, SPACE, pos);
        let token = vstd::slice::slice_subrange(s, pos, sp);
        assert(token@ =~= s@.subrange(pos as int, sp as int));
        let parsed = parse_u64_dec(token);
        match parsed {
            Some(v) => r.push(v),
            None => (),
        }
        proof {
            if sp == s@.len() {
                assert(spec_parse_inodes_from(s@, pos as int) == opt_to_seq(
                    spec_token_u64(s@.subrange(pos as int, s@.len() as int)),
                ));
            } else {
                assert(spec_parse_inodes_from(s@, pos as int) == opt_to_seq(
                    spec_token_u64(s@.subrange(pos as int, sp as int)),
                ) + spec_parse_inodes_from(s@, sp + 1));
            }
            assert(spec_parse_inodes_from(s@, 0) =~= r@ + (if sp == s@.len() {
                Seq::<u64>::empty()
            } else {
                spec_parse_inodes_from(s@, sp + 1)
            }));
        }
        if sp == s.len() {
            pos = s.len();
            proof {
                assert(spec_parse_inodes_from(s@, pos as int) =~= Seq::<u64>::empty());
            }
        } else {
            pos = sp + 1;
        }
    }
    proof {
        assert(spec_parse_inodes_from(s@, pos as int) =~= Seq::<u64>::empty());
        assert(r@ =~= spec_parse_inodes_from(s@, 0));
    }
    r
}

// ----------------------------------------------------------------------
// Lines and the whole source

/// What one line parses to: the process id before the first quote — trimmed
/// — and the inode tokens after the second quote, trimmed. A line without
/// two quotes, or whose pid field is no number, is malformed.
pub open spec fn spec_parse_line(line: Seq<u8>) -> Option<(i32, Seq<u64>)> {
    let q1 = first_index_from(line, QUOTE, 0);
    if q1 == line.len() {
        None
    } else {
        let q2 = first_index_from(line, QUOTE, q1 + 1);
        if q2 == line.len() {
            None
        } else {
            match spec_parse_pid(trimmed(line.take(q1))) {
                Some(pid) => Some(
                    (pid, spec_parse_inodes_from(trimmed(line.skip(q2 + 1)), 0)),
                ),
                None => None,
            }
        }
    }
}

/// Parse one line of the source.
pub fn parse_line(line: &[u8]) -> (r: Option<(i32, Vec<u64>)>)
    ensures
        match r {
            Some(e) => spec_parse_line(line@) == Some((e.0, e.1@)),
            None => spec_parse_line(line@) is None,
        },
{
    let q1 = find_byte(line, QUOTE, 0);
    if q1 == line.len() {
        return None;
    }
    let q2 = find_byte(line, QUOTE, q1 + 1);
    if q2 == line.len() {
        return None;
    }
    let pid_field = vstd::slice::slice_subrange(line, 0, q1);
    assert(pid_field@ =~= line@.take(q1 as int));
    let pid = match parse_pid(trim_slice(pid_field)) {
        Some(p) => p,
        None => {
            return None;
        },
    };
    let inode_field = vstd::slice::slice_subrange(line, q2 + 1, line.len());
    assert(inode_field@ =~= line@.skip(q2 + 1));
    let inodes = parse_inodes(trim_slice(inode_field));
    Some((pid, inodes))
}

/// The sequence an optional parsed line contributes.
pub open spec fn opt_line_to_seq(o: Option<(i32, Seq<u64>)>) -> Seq<(i32, Seq<u64>)> {
    match o {
        Some(e) => seq![e],
        None => Seq::<(i32, Seq<u64>)>::empty(),
    }
}

/// The well-formed lines of the source from `from` on, split at newlines,
/// each parsed; malformed lines are skipped.
pub open spec fn spec_parse_source_from(data: Seq<u8>, from: int) -> Seq<(i32, Seq<u64>)>
    decreases data.len() - from,
    when 0 <= from <= data.len()
    via spec_parse_source_from_decreases
{
    if from == data.len() {
        Seq::<(i32, Seq<u64>)>::empty()
    } else {
        let nl = first_index_from(data, NEWLINE, from);
        if nl == data.len() {
            opt_line_to_seq(spec_parse_line(data.subrange(from, data.len() as int)))
        } else {
            opt_line_to_seq(spec_parse_line(data.subrange(from, nl))) + spec_parse_source_from(
                data,
                nl + 1,
            )
        }
    }
}

#[via_fn]
proof fn spec_parse_source_from_decreases(data: Seq<u8>, from: int) {
    if 0 <= from < data.len() {
        lemma_first_index_from_bounds(data, NEWLINE, from);
    }
}

/// The view of parsed process entries, with each inode list as a sequence.
pub open spec fn deep_entries(s: Seq<(i32, Vec<u64>)>) -> Seq<(i32, Seq<u64>)> {
    s.map(|_i: int, e: (i32, Vec<u64>)| (e.0, e.1@))
}

/// Parse the whole fast-path source: one process entry per well-formed
/// line.
pub fn parse_fast_path_source(data: &[u8]) -> (r: Vec<(i32, Vec<u64>)>)
    ensures
        deep_entries(r@) == spec_parse_source_from(data@, 0),
{
    let mut r: Vec<(i32, Vec<u64>)> = Vec::new();
    let mut pos: usize = 0;
    proof {
        assert(deep_entries(r@) =~= Seq::<(i32, Seq<u64>)>::empty());
    }
    while pos < data.len()
        invariant
            0 <= pos <= data@.len(),
            spec_parse_source_from(data@, 0) == deep_entries(r@) + spec_parse_source_from(
                data@,
                pos as int,
            ),
        decreases data@.len() - pos,
    {
        let nl = find_byte(data, NEWLINE, pos);
        let line = vstd::slice::slice_subrange(data, pos, nl);
        assert(line@ =~= data@.subrange(pos as int, nl as int));
        let ghost r_before = r@;
        match parse_line(line) {
            Some(e) => {
                r.push(e);
                proof {
                    assert(deep_entries(r@) =~= deep_entries(r_before) + opt_line_to_seq(
                        spec_parse_line(line@),
                    ));
                }
            },
            None => {
                proof {
                    assert(deep_entries(r@) =~= deep_entries(r_before) + opt_line_to_seq(
                        spec_parse_line(line@),
                    ));
                }
            },
        }
        proof {
            assert(spec_parse_source_from(data@, 0) =~= deep_entries(r@) + (if nl == data@.len() {
                Seq::<(i32, Seq<u64>)>::empty()
            } else {
                spec_parse_source_from(data@, nl + 1)
            }));
        }
        if nl == data.len() {
            pos = data.len();
            proof {
                assert(spec_parse_source_from(data@, pos as int) =~= Seq::<
                    (i32, Seq<u64>),
                >::empty());
            }
        } else {
            pos = nl + 1;
        }
    }
    proof {
        assert(spec_parse_source_from(data@, pos as int) =~= Seq::<(i32, Seq<u64>)>::empty());
        assert(deep_entries(r@) =~= spec_parse_source_from(data@, 0));
    }
    r
}

} // verus!
