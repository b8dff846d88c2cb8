//! Scanning a process's memory-region descriptor table for a base address.
//!
//! The table is an ordered sequence of text records, one per mapped
//! region.  A record's first whitespace-delimited field is an address
//! range written `<start-hex>-<end-hex>`; its second field is the
//! permissions string.  Resolution walks the records in table order and
//! returns the start-of-range value of the first record whose permissions
//! field contains the caller's substring; later matches are never
//! considered.  A first match whose start-of-range is not a hexadecimal
//! number that fits 64 bits yields nothing.

use vstd::prelude::*;

verus! {

/// The bytes that delimit fields within a record.
pub open spec fn is_space(b: u8) -> bool {
    b == 32 || b == 9
}

/// The first position at or after `i` holding a field delimiter, or the
/// record's end.
pub open spec fn tok_end(s: Seq<u8>, i: int) -> int
    decreases s.len() - i,
{
    if i < 0 || i >= s.len() {
        s.len() as int
    } else if is_space(s[i]) {
        i
    } else {
        tok_end(s, i + 1)
    }
}

/// The first position at or after `i` holding a non-delimiter, or the
/// record's end.
pub open spec fn skip_sp(s: Seq<u8>, i: int) -> int
    decreases s.len() - i,
{
    if i < 0 || i >= s.len() {
        s.len() as int
    } else if is_space(s[i]) {
        skip_sp(s, i + 1)
    } else {
        i
    }
}

/// The first position in `[i, end)` holding `-`, or `end`.
pub open spec fn dash_end(s: Seq<u8>, i: int, end: int) -> int
    decreases end - i,
{
    if i < 0 || i >= end {
        end
    } else if s[i] == 45 {
        i
    } else {
        dash_end(s, i + 1, end)
    }
}

/// The value of one hexadecimal digit, in either case.
pub open spec fn spec_hex_digit(b: u8) -> Option<u8> {
    if 48 <= b && b <= 57 {
        Some((b - 48) as u8)
    } else if 97 <= b && b <= 102 {
        Some((b - 87) as u8)
    } else if 65 <= b && b <= 70 {
        Some((b - 55) as u8)
    } else {
        None
    }
}

/// Every byte of `s` is a hexadecimal digit.
pub open spec fn all_hex(s: Seq<u8>) -> bool {
    forall|i: int| 0 <= i < s.len() ==> spec_hex_digit(s[i]) is Some
}

/// The number a hexadecimal digit string denotes, most significant digit
/// first; bytes that are no digits count as zero.
pub open spec fn hex_nat(s: Seq<u8>) -> nat
    decreases s.len(),
{
    if s.len() == 0 {
        0
    } else {
        16 * hex_nat(s.drop_last()) + (match spec_hex_digit(s.last()) {
            Some(d) => d as nat,
            None => 0,
        })
    }
}

/// What a hexadecimal field parses to: its value, provided the field is
/// non-empty, made of digits only, and fits 64 bits.
pub open spec fn parse_hex(s: Seq<u8>) -> Option<u64> {
    if s.len() > 0 && all_hex(s) && hex_nat(s) <= u64::MAX {
        Some(hex_nat(s) as u64)
    } else {
        None
    }
}

/// `needle` occurs contiguously within `hay[lo..hi]`.
pub open spec fn contains_in(hay: Seq<u8>, lo: int, hi: int, needle: Seq<u8>) -> bool {
    exists|i: int|
        lo <= i && i + needle.len() <= hi && #[trigger] hay.subrange(i, i + needle.len())
            == needle
}

/// Where a record's first field (the address range) begins.
pub open spec fn range_start(line: Seq<u8>) -> int {
    skip_sp(line, 0)
}

/// Where a record's first field ends.
pub open spec fn range_end(line: Seq<u8>) -> int {
    tok_end(line, range_start(line))
}

/// Where a record's second field (the permissions string) begins.
pub open spec fn perms_start(line: Seq<u8>) -> int {
    skip_sp(line, range_end(line))
}

/// Where a record's second field ends.
pub open spec fn perms_end(line: Seq<u8>) -> int {
    tok_end(line, perms_start(line))
}

/// A record matches when its permissions field contains the requested
/// substring.
pub open spec fn record_matches(line: Seq<u8>, perms: Seq<u8>) -> bool {
    contains_in(line, perms_start(line), perms_end(line), perms)
}

/// The start-of-range value a record carries: the hexadecimal prefix of
/// its first field, up to the `-` separator.
pub open spec fn record_start(line: Seq<u8>) -> Option<u64> {
    parse_hex(
        line.subrange(range_start(line), dash_end(line, range_start(line), range_end(line))),
    )
}

/// The result of scanning a table: the start address of the first record
/// whose permissions field contains `perms`, nothing when no record
/// matches or the first matching record's start-of-range does not parse.
pub open spec fn resolve_spec(records: Seq<Seq<u8>>, perms: Seq<u8>) -> Option<u64>
    decreases records.len(),
{
    if records.len() == 0 {
        None
    } else if record_matches(records[0], perms) {
        record_start(records[0])
    } else {
        resolve_spec(records.drop_first(), perms)
    }
}

/// The views of a table held as byte vectors.
pub open spec fn views_of(records: Seq<Vec<u8>>) -> Seq<Seq<u8>> {
    records.map_values(|rec: Vec<u8>| rec@)
}

/// First delimiter at or after `from`.
fn token_end(line: &Vec<u8>, from: usize) -> (r: usize)
    requires
        from <= line@.len(),
    ensures
        r as int == tok_end(line@, from as int),
        from <= r <= line@.len(),
{
    let n = line.len();
    let mut i = from;
    while i < n && !(line[i] == 32 || line[i] == 9)
        invariant
            from <= i <= n == line@.len(),
            tok_end(line@, from as int) == tok_end(line@, i as int),
        decreases n - i,
    {
        i = i + 1;
    }
    i
}

/// First non-delimiter at or after `from`.
fn skip_spaces(line: &Vec<u8>, from: usize) -> (r: usize)
    requires
        from <= line@.len(),
    ensures
        r as int == skip_sp(line@, from as int),
        from <= r <= line@.len(),
{
    let n = line.len();
    let mut i = from;
    while i < n && (line[i] == 32 || line[i] == 9)
        invariant
            from <= i <= n == line@.len(),
            skip_sp(line@, from as int) == skip_sp(line@, i as int),
        decreases n - i,
    {
        i = i + 1;
    }
    i
}

/// First `-` in `[from, to)`, or `to`.
fn find_dash(line: &Vec<u8>, from: usize, to: usize) -> (r: usize)
    requires
        from <= to <= line@.len(),
    ensures
        r as int == dash_end(line@, from as int, to as int),
        from <= r <= to,
{
    let mut i = from;
    while i < to && line[i] != 45
        invariant
            from <= i <= to <= line@.len(),
            dash_end(line@, from as int, to as int) == dash_end(line@, i as int, to as int),
        decreases to - i,
    {
        i = i + 1;
    }
    i
}

/// The value of one hexadecimal digit, in either case.
fn hex_digit_of(b: u8) -> (r: Option<u8>)
    ensures
        r == spec_hex_digit(b),
{
    if 48 <= b && b <= 57 {
        Some(b - 48)
    } else if 97 <= b && b <= 102 {
        Some(b - 87)
    } else if 65 <= b && b <= 70 {
        Some(b - 55)
    } else {
        None
    }
}

/// A longer digit string denotes at least sixteen times what any proper
/// prefix of it denotes.
proof fn lemma_hex_nat_extend(s: Seq<u8>, i: int)
    requires
        0 <= i < s.len(),
    ensures
        hex_nat(s) >= 16 * hex_nat(s.take(i)),
    decreases s.len(),
{
    if i == s.len() - 1 {
        assert(s.drop_last() =~= s.take(i));
    } else {
        lemma_hex_nat_extend(s.drop_last(), i);
        assert(s.drop_last().take(i) =~= s.take(i));
    }
}

/// Parse the hexadecimal field `line[lo..hi]`.
pub fn parse_hex_range(line: &Vec<u8>, lo: usize, hi: usize) -> (r: Option<u64>)
    requires
        lo <= hi <= line@.len(),
    ensures
        r == parse_hex(line@.subrange(lo as int, hi as int)),
{
    if lo == hi {
        return None;
    }
    let mut acc: u64 = 0;
    let mut i = lo;
    while i < hi
        invariant
            lo <= i <= hi <= line@.len(),
            all_hex(line@.subrange(lo as int, i as int)),
            acc as nat == hex_nat(line@.subrange(lo as int, i as int)),
        decreases hi - i,
    {
        let b = line[i];
        match hex_digit_of(b) {
            None => {
                proof {
                    assert(line@.subrange(lo as int, hi as int)[i - lo] == line@[i as int]);
                }
                return None;
            },
            Some(d) => {
                if acc >= 0x1000_0000_0000_0000u64 {
                    proof {
                        let full = line@.subrange(lo as int, hi as int);
                        assert(full.take(i - lo) =~= line@.subrange(lo as int, i as int));
                        lemma_hex_nat_extend(full, i - lo);
                    }
                    return None;
                }
                proof {
                    let pre = line@.subrange(lo as int, i as int);
                    let nxt = line@.subrange(lo as int, i as int + 1);
                    assert(nxt.drop_last() =~= pre);
                    assert(nxt.last() == b);
                    assert forall|k: int| 0 <= k < nxt.len() implies spec_hex_digit(
                        nxt[k],
                    ) is Some by {
                        if k < nxt.len() - 1 {
                            assert(nxt[k] == pre[k]);
                        } else {
                            assert(nxt[k] == b);
                        }
                    }
                }
                acc = acc * 16 + (d as u64);
                i = i + 1;
            },
        }
    }
    proof {
        assert(line@.subrange(lo as int, i as int) =~= line@.subrange(lo as int, hi as int));
    }
    Some(acc)
}

/// Whether `line[pos..pos + needle.len()]` equals `needle`.
fn match_at(line: &Vec<u8>, pos: usize, needle: &Vec<u8>) -> (r: bool)
    requires
        pos + needle@.len() <= line@.len(),
    ensures
        r == (line@.subrange(pos as int, pos + needle@.len()) == needle@),
{
    let n = needle.len();
    let llen = line.len();
    let mut j: usize = 0;
    while j < n
        invariant
            j <= n == needle@.len(),
            pos + n <= llen == line@.len(),
            forall|k: int| 0 <= k < j ==> line@[pos + k] == needle@[k],
        decreases n - j,
    {
        if line[pos + j] != needle[j] {
            proof {
                assert(line@.subrange(pos as int, pos + needle@.len())[j as int] == line@[pos + j]);
            }
            return false;
        }
        j = j + 1;
    }
    proof {
        assert(line@.subrange(pos as int, pos + needle@.len()) =~= needle@);
    }
    true
}

/// Whether `needle` occurs contiguously within `line[lo..hi]`.
pub fn range_contains(line: &Vec<u8>, lo: usize, hi: usize, needle: &Vec<u8>) -> (r: bool)
    requires
        lo <= hi <= line@.len(),
    ensures
        r == contains_in(line@, lo as int, hi as int, needle@),
{
    let n = needle.len();
    if n > hi - lo {
        return false;
    }
    if n == 0 {
        proof {
            assert(line@.subrange(lo as int, lo as int + needle@.len()) =~= needle@);
            assert(contains_in(line@, lo as int, hi as int, needle@));
        }
        return true;
    }
    let mut i = lo;
    while n <= hi - i
        invariant
            lo <= i,
            i <= hi <= line@.len(),
            1 <= n == needle@.len(),
            forall|k: int|
                lo <= k < i ==> #[trigger] line@.subrange(k, k + needle@.len()) != needle@,
        decreases hi - i,
    {
        if match_at(line, i, needle) {
            proof {
                assert(contains_in(line@, lo as int, hi as int, needle@)) by {
                    assert(line@.subrange(i as int, i + needle@.len()) == needle@);
                }
            }
            return true;
        }
        i = i + 1;
    }
    false
}

/// Scan a memory-region descriptor table for the first record whose
/// permissions field contains `perms`, and return its start-of-range
/// value.
pub fn resolve_base_address(records: &Vec<Vec<u8>>, perms: &Vec<u8>) -> (r: Option<u64>)
    ensures
        r == resolve_spec(views_of(records@), perms@),
{
    let n = records.len();
    let mut k: usize = 0;
    proof {
        assert(views_of(records@).skip(0) =~= views_of(records@));
    }
    while k < n
        invariant
            k <= n == records@.len(),
            resolve_spec(views_of(records@), perms@) == resolve_spec(
                views_of(records@).skip(k as int),
                perms@,
            ),
        decreases n - k,
    {
        proof {
            let vs = views_of(records@);
            assert(vs.skip(k as int)[0] == vs[k as int]);
            assert(vs.skip(k as int).drop_first() =~= vs.skip(k as int + 1));
        }
        let line = &records[k];
        let fs = skip_spaces(line, 0);
        let fe = token_end(line, fs);
        let ps = skip_spaces(line, fe);
        let pe = token_end(line, ps);
        if range_contains(line, ps, pe, perms) {
            let de = find_dash(line, fs, fe);
            return parse_hex_range(line, fs, de);
        }
        k = k + 1;
    }
    proof {
        assert(views_of(records@).skip(n as int) =~= Seq::<Seq<u8>>::empty());
    }
    None
}

} // verus!
