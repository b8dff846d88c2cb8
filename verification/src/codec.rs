//! Decoding raw little-endian bytes into a tagged value, and encoding a
//! tagged value back into bytes.
//!
//! The byte order is little-endian throughout: the first byte of a buffer
//! is the least significant.  Signed payloads use the two's-complement bit
//! pattern; the floating-point tags carry the bit pattern through unchanged.

use vstd::prelude::*;
use vstd::arithmetic::div_mod::lemma_fundamental_div_mod;
use crate::enums::{BufType, BufValue, spec_width, tag_of};

verus! {

/// The unsigned integer held by a little-endian byte sequence: the first
/// byte is the least significant.
pub open spec fn le_value(bytes: Seq<u8>) -> nat
    decreases bytes.len(),
{
    if bytes.len() == 0 {
        0
    } else {
        bytes[0] as nat + 256 * le_value(bytes.drop_first())
    }
}

/// 256 raised to the `w`th power: one more than the largest value a
/// little-endian buffer of `w` bytes can hold.
pub open spec fn pow256(w: nat) -> nat
    decreases w,
{
    if w == 0 {
        1
    } else {
        256 * pow256((w - 1) as nat)
    }
}

/// The `w` little-endian bytes of `n`, least significant first.
pub open spec fn le_bytes(n: nat, w: nat) -> Seq<u8>
    decreases w,
{
    if w == 0 {
        Seq::empty()
    } else {
        seq![(n % 256) as u8] + le_bytes(n / 256, (w - 1) as nat)
    }
}

/// The concrete powers of 256 at the widths the tags use.
proof fn lemma_pow256_values()
    ensures
        pow256(1) == 0x100,
        pow256(2) == 0x1_0000,
        pow256(4) == 0x1_0000_0000,
        pow256(8) == 0x1_0000_0000_0000_0000,
{
    reveal_with_fuel(pow256, 9);
}

/// A little-endian buffer of `w` bytes holds a value below 256^w.
pub proof fn lemma_le_value_bound(bytes: Seq<u8>)
    ensures
        le_value(bytes) < pow256(bytes.len()),
    decreases bytes.len(),
{
    if bytes.len() > 0 {
        lemma_le_value_bound(bytes.drop_first());
    }
}

/// `le_bytes` produces exactly `w` bytes.
pub proof fn lemma_le_bytes_len(n: nat, w: nat)
    ensures
        le_bytes(n, w).len() == w,
    decreases w,
{
    if w > 0 {
        lemma_le_bytes_len(n / 256, (w - 1) as nat);
    }
}

/// Law: writing an in-range value as little-endian bytes and reading those
/// bytes back yields the value unchanged.
pub proof fn lemma_le_round_trip(n: nat, w: nat)
    requires
        n < pow256(w),
    ensures
        le_value(le_bytes(n, w)) == n,
    decreases w,
{
    if w == 0 {
        assert(n == 0);
    } else {
        let rest = n / 256;
        assert(256 * pow256((w - 1) as nat) == pow256(w));
        assert(rest < pow256((w - 1) as nat)) by (nonlinear_arith)
            requires
                n < 256 * pow256((w - 1) as nat),
                rest == n / 256,
        ;
        lemma_le_round_trip(rest, (w - 1) as nat);
        let bs = le_bytes(n, w);
        assert(bs.drop_first() =~= le_bytes(rest, (w - 1) as nat));
        assert(bs[0] == (n % 256) as u8);
        lemma_fundamental_div_mod(n as int, 256);
    }
}

/// The unsigned two's-complement bit pattern of a value, as wide as its
/// tag: what its little-endian encoding holds.
pub open spec fn bit_pattern(v: BufValue) -> nat {
    match v {
        BufValue::U8(x) => x as nat,
        BufValue::U16(x) => x as nat,
        BufValue::U32(x) => x as nat,
        BufValue::U64(x) => x as nat,
        BufValue::I8(x) => (if x >= 0 { x as int } else { x + 0x100 }) as nat,
        BufValue::I16(x) => (if x >= 0 { x as int } else { x + 0x1_0000 }) as nat,
        BufValue::I32(x) => (if x >= 0 { x as int } else { x + 0x1_0000_0000 }) as nat,
        BufValue::I64(x) => (if x >= 0 {
            x as int
        } else {
            x + 0x1_0000_0000_0000_0000
        }) as nat,
        BufValue::Float(b) => b as nat,
        BufValue::Double(b) => b as nat,
    }
}

/// The value that a little-endian buffer of the right width decodes to
/// under a tag: the buffer's unsigned value, reinterpreted through the
/// tag's two's-complement domain.
pub open spec fn spec_decode(bytes: Seq<u8>, t: BufType) -> BufValue
    recommends
        bytes.len() == spec_width(t),
{
    let n = le_value(bytes);
    match t {
        BufType::U8 => BufValue::U8(n as u8),
        BufType::U16 => BufValue::U16(n as u16),
        BufType::U32 => BufValue::U32(n as u32),
        BufType::U64 => BufValue::U64(n as u64),
        BufType::I8 => BufValue::I8((if n < 0x80 { n as int } else { n - 0x100 }) as i8),
        BufType::I16 => BufValue::I16((if n < 0x8000 { n as int } else { n - 0x1_0000 }) as i16),
        BufType::I32 => BufValue::I32(
            (if n < 0x8000_0000 { n as int } else { n - 0x1_0000_0000 }) as i32,
        ),
        BufType::I64 => BufValue::I64(
            (if n < 0x8000_0000_0000_0000 { n as int } else { n - 0x1_0000_0000_0000_0000 }) as i64,
        ),
        BufType::Float => BufValue::Float(n as u32),
        BufType::Double => BufValue::Double(n as u64),
    }
}

/// The little-endian encoding of a value: its bit pattern over as many
/// bytes as its tag is wide.
pub open spec fn spec_encode(v: BufValue) -> Seq<u8> {
    le_bytes(bit_pattern(v), spec_width(tag_of(v)) as nat)
}

/// The unsigned value of the first `w` bytes of `buf`, little-endian.
fn le_u64(buf: &Vec<u8>, w: usize) -> (n: u64)
    requires
        w <= 8,
        buf@.len() == w,
    ensures
        n as nat == le_value(buf@),
{
    let mut acc: u64 = 0;
    let mut j: usize = w;
    while j > 0
        invariant
            j <= w <= 8,
            buf@.len() == w,
            acc as nat == le_value(buf@.subrange(j as int, w as int)),
        decreases j,
    {
        proof {
            lemma_pow256_values();
            let s = buf@.subrange(j - 1, w as int);
            assert(s.drop_first() =~= buf@.subrange(j as int, w as int));
            assert(le_value(s) == s[0] as nat + 256 * le_value(s.drop_first()));
            lemma_le_value_bound(s);
            lemma_pow256_increases(s.len(), 8);
            assert(s[0] as nat + 256 * (acc as nat) < 0x1_0000_0000_0000_0000);
        }
        j = j - 1;
        acc = acc * 256 + (buf[j] as u64);
    }
    proof {
        assert(buf@.subrange(0, w as int) =~= buf@);
    }
    acc
}

/// 256^a <= 256^b when a <= b.
proof fn lemma_pow256_increases(a: nat, b: nat)
    requires
        a <= b,
    ensures
        pow256(a) <= pow256(b),
    decreases b,
{
    if a < b && b > 0 {
        lemma_pow256_increases(a, (b - 1) as nat);
    }
}

/// Decode a little-endian buffer of exactly the tag's width into the
/// tagged value it holds.
pub fn decode(buf: &Vec<u8>, t: &BufType) -> (r: BufValue)
    requires
        buf@.len() == spec_width(*t),
    ensures
        r == spec_decode(buf@, *t),
        tag_of(r) == *t,
{
    proof {
        lemma_le_value_bound(buf@);
        lemma_pow256_values();
    }
    match t {
        BufType::U8 => BufValue::U8(le_u64(buf, 1) as u8),
        BufType::U16 => BufValue::U16(le_u64(buf, 2) as u16),
        BufType::U32 => BufValue::U32(le_u64(buf, 4) as u32),
        BufType::U64 => BufValue::U64(le_u64(buf, 8)),
        BufType::I8 => {
            let n = le_u64(buf, 1);
            if n < 0x80 {
                BufValue::I8(n as i8)
            } else {
                BufValue::I8(((n as i64) - 0x100) as i8)
            }
        },
        BufType::I16 => {
            let n = le_u64(buf, 2);
            if n < 0x8000 {
                BufValue::I16(n as i16)
            } else {
                BufValue::I16(((n as i64) - 0x1_0000) as i16)
            }
        },
        BufType::I32 => {
            let n = le_u64(buf, 4);
            if n < 0x8000_0000 {
                BufValue::I32(n as i32)
            } else {
                BufValue::I32(((n as i64) - 0x1_0000_0000) as i32)
            }
        },
        BufType::I64 => {
            let n = le_u64(buf, 8);
            if n < 0x8000_0000_0000_0000 {
                BufValue::I64(n as i64)
            } else {
                BufValue::I64(((n - 0x8000_0000_0000_0000) as i64) + i64::MIN)
            }
        },
        BufType::Float => BufValue::Float(le_u64(buf, 4) as u32),
        BufType::Double => BufValue::Double(le_u64(buf, 8)),
    }
}

/// Encode a tagged value into the little-endian bytes its tag is wide.
pub fn encode(v: &BufValue) -> (r: Vec<u8>)
    ensures
        r@ == spec_encode(*v),
        r@.len() == spec_width(tag_of(*v)),
{
    let (n, w): (u64, usize) = match v {
        BufValue::U8(x) => (*x as u64, 1),
        BufValue::U16(x) => (*x as u64, 2),
        BufValue::U32(x) => (*x as u64, 4),
        BufValue::U64(x) => (*x, 8),
        BufValue::I8(x) => {
            if *x >= 0 {
                (*x as u64, 1)
            } else {
                (((*x as i64) + 0x100) as u64, 1)
            }
        },
        BufValue::I16(x) => {
            if *x >= 0 {
                (*x as u64, 2)
            } else {
                (((*x as i64) + 0x1_0000) as u64, 2)
            }
        },
        BufValue::I32(x) => {
            if *x >= 0 {
                (*x as u64, 4)
            } else {
                (((*x as i64) + 0x1_0000_0000) as u64, 4)
            }
        },
        BufValue::I64(x) => {
            if *x >= 0 {
                (*x as u64, 8)
            } else {
                (((*x - i64::MIN) as u64) + 0x8000_0000_0000_0000u64, 8)
            }
        },
        BufValue::Float(b) => (*b as u64, 4),
        BufValue::Double(b) => (*b as u64, 8),
    };
    proof {
        lemma_le_bytes_len(n as nat, w as nat);
    }
    let mut out: Vec<u8> = Vec::new();
    let mut acc: u64 = n;
    let mut i: usize = 0;
    while i < w
        invariant
            i <= w,
            out@.len() == i,
            le_bytes(n as nat, w as nat) =~= out@ + le_bytes(acc as nat, (w - i) as nat),
        decreases w - i,
    {
        let b = (acc % 256) as u8;
        proof {
            assert(le_bytes(acc as nat, (w - i) as nat) == seq![b] + le_bytes(
                acc as nat / 256,
                (w - i - 1) as nat,
            ));
            assert(out@ + le_bytes(acc as nat, (w - i) as nat) =~= (out@ + seq![b]) + le_bytes(
                acc as nat / 256,
                (w - i - 1) as nat,
            ));
        }
        out.push(b);
        acc = acc / 256;
        i = i + 1;
    }
    proof {
        assert(out@ + le_bytes(acc as nat, 0) =~= out@);
        assert(out@ =~= spec_encode(*v));
    }
    out
}

/// Law: encoding any value to little-endian bytes of its tag's width and
/// decoding those bytes under the same tag yields the value unchanged,
/// for every tag.
pub proof fn lemma_decode_encode_round_trip(v: BufValue)
    ensures
        spec_decode(spec_encode(v), tag_of(v)) == v,
{
    lemma_pow256_values();
    lemma_le_round_trip(bit_pattern(v), spec_width(tag_of(v)) as nat);
}

} // verus!
