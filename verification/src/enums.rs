//! The closed set of fixed-width numeric representations that can be read
//! from or written into a foreign process, together with the conversion
//! rules between them.
//!
//! A `BufValue` carries exactly one decoded payload whose bit width equals
//! the width of the `BufType` tag that produced it.  The two floating-point
//! tags carry their payload as the raw IEEE 754 bit pattern (`u32` / `u64`):
//! this library never interprets those bits numerically, it only moves them.

use vstd::prelude::*;

verus! {

/// Tag naming one fixed-width representation.  Each tag maps to exactly one
/// byte width, which is authoritative for how many bytes a read or write of
/// that representation transfers.
#[derive(Clone, Copy, Debug, PartialEq, Eq, Structural)]
pub enum BufType {
    U8,
    U16,
    U32,
    U64,
    I8,
    I16,
    I32,
    I64,
    Float,
    Double,
}

/// A decoded value, tagged with the representation that produced it.
/// `Float` and `Double` hold the raw little-endian bit pattern of the
/// 32-bit / 64-bit floating-point value; numeric interpretation of those
/// bits is left to unverified callers.
#[derive(Clone, Copy, Debug, PartialEq, Eq, Structural)]
pub enum BufValue {
    U8(u8),
    U16(u16),
    U32(u32),
    U64(u64),
    I8(i8),
    I16(i16),
    I32(i32),
    I64(i64),
    Float(u32),
    Double(u64),
}

/// Everything that can go wrong while addressing a foreign process.
/// Setup failures (`ProcessNotFound`, `RegionTableUnavailable`,
/// `NoMatchingRegion`) end a session; `ReadFailed` and `WriteFailed` are
/// fatal to the session that issued them; `TypeConversionUnsupported` and
/// `PointerChainResolutionFailed` are recoverable by the caller.
#[derive(Clone, Copy, Debug, PartialEq, Eq, Structural)]
pub enum MemoryError {
    ProcessNotFound,
    RegionTableUnavailable,
    NoMatchingRegion,
    ReadFailed,
    WriteFailed,
    TypeConversionUnsupported,
    PointerChainResolutionFailed,
}

/// The byte width of each representation: 1, 2, 4, 8 for the integers of
/// either signedness, 4 for `Float`, 8 for `Double`.
pub open spec fn spec_width(t: BufType) -> usize {
    match t {
        BufType::U8 => 1,
        BufType::U16 => 2,
        BufType::U32 => 4,
        BufType::U64 => 8,
        BufType::I8 => 1,
        BufType::I16 => 2,
        BufType::I32 => 4,
        BufType::I64 => 8,
        BufType::Float => 4,
        BufType::Double => 8,
    }
}

/// The tag a value carries.
pub open spec fn tag_of(v: BufValue) -> BufType {
    match v {
        BufValue::U8(_) => BufType::U8,
        BufValue::U16(_) => BufType::U16,
        BufValue::U32(_) => BufType::U32,
        BufValue::U64(_) => BufType::U64,
        BufValue::I8(_) => BufType::I8,
        BufValue::I16(_) => BufType::I16,
        BufValue::I32(_) => BufType::I32,
        BufValue::I64(_) => BufType::I64,
        BufValue::Float(_) => BufType::Float,
        BufValue::Double(_) => BufType::Double,
    }
}

/// True of the eight integer-tagged values.
pub open spec fn is_integer(v: BufValue) -> bool {
    !(v is Float) && !(v is Double)
}

/// The mathematical value carried by an integer-tagged `BufValue`.
pub open spec fn int_value(v: BufValue) -> int
    recommends
        is_integer(v),
{
    match v {
        BufValue::U8(x) => x as int,
        BufValue::U16(x) => x as int,
        BufValue::U32(x) => x as int,
        BufValue::U64(x) => x as int,
        BufValue::I8(x) => x as int,
        BufValue::I16(x) => x as int,
        BufValue::I32(x) => x as int,
        BufValue::I64(x) => x as int,
        BufValue::Float(_) => 0,
        BufValue::Double(_) => 0,
    }
}

impl BufType {
    /// How many bytes a value of this representation occupies; consulted to
    /// size every transfer buffer.
    pub fn bytes(&self) -> (n: usize)
        ensures
            n == spec_width(*self),
    {
        match self {
            BufType::U8 | BufType::I8 => 1,
            BufType::U16 | BufType::I16 => 2,
            BufType::U32 | BufType::I32 => 4,
            BufType::U64 | BufType::I64 => 8,
            BufType::Float => 4,
            BufType::Double => 8,
        }
    }
}

// A conversion succeeds exactly when the target representation's domain
// contains the source tag's whole domain, so that the numeric value is
// preserved; the one sanctioned exception is the 8-bit pair, which
// converts across signedness by two's-complement reinterpretation.  Every
// other request — a narrower target, a signed payload asked to be
// unsigned or the reverse, a floating-point payload asked to be an
// integer — reports absence rather than truncating.

/// What `to_u8` returns: the 8-bit unsigned view.  Only the 8-bit pair
/// has one; the signed payload is reinterpreted modulo 2^8.
pub open spec fn spec_to_u8(v: BufValue) -> Option<u8> {
    match v {
        BufValue::U8(x) => Some(x),
        BufValue::I8(x) => Some((if x >= 0 { x as int } else { x + 256 }) as u8),
        _ => None,
    }
}

/// What `to_u16` returns: the unsigned representations of at most 16
/// bits, widened with the value preserved.
pub open spec fn spec_to_u16(v: BufValue) -> Option<u16> {
    match v {
        BufValue::U16(x) => Some(x),
        BufValue::U8(x) => Some(x as u16),
        _ => None,
    }
}

/// What `to_u32` returns: the unsigned representations of at most 32
/// bits, widened with the value preserved.
pub open spec fn spec_to_u32(v: BufValue) -> Option<u32> {
    match v {
        BufValue::U32(x) => Some(x),
        BufValue::U16(x) => Some(x as u32),
        BufValue::U8(x) => Some(x as u32),
        _ => None,
    }
}

/// What `to_u64` returns: every unsigned representation, widened with the
/// value preserved.  A signed or floating-point payload has no 64-bit
/// unsigned view.
pub open spec fn spec_to_u64(v: BufValue) -> Option<u64> {
    match v {
        BufValue::U64(x) => Some(x),
        BufValue::U32(x) => Some(x as u64),
        BufValue::U16(x) => Some(x as u64),
        BufValue::U8(x) => Some(x as u64),
        _ => None,
    }
}

/// What `to_i8` returns: the 8-bit signed view.  Only the 8-bit pair has
/// one; the unsigned payload is reinterpreted modulo 2^8.
pub open spec fn spec_to_i8(v: BufValue) -> Option<i8> {
    match v {
        BufValue::I8(x) => Some(x),
        BufValue::U8(x) => Some((if x < 128 { x as int } else { x - 256 }) as i8),
        _ => None,
    }
}

/// What `to_i16` returns: the representations whose domain the 16-bit
/// signed one contains — 8-bit of either signedness and 16-bit signed —
/// widened with the value preserved.
pub open spec fn spec_to_i16(v: BufValue) -> Option<i16> {
    match v {
        BufValue::I16(x) => Some(x),
        BufValue::I8(x) => Some(x as i16),
        BufValue::U8(x) => Some(x as i16),
        _ => None,
    }
}

/// What `to_i32` returns: the representations whose domain the 32-bit
/// signed one contains, widened with the value preserved.
pub open spec fn spec_to_i32(v: BufValue) -> Option<i32> {
    match v {
        BufValue::I32(x) => Some(x),
        BufValue::I16(x) => Some(x as i32),
        BufValue::I8(x) => Some(x as i32),
        BufValue::U16(x) => Some(x as i32),
        BufValue::U8(x) => Some(x as i32),
        _ => None,
    }
}

/// What `to_i64` returns: the representations whose domain the 64-bit
/// signed one contains — every signed one, and the unsigned ones of at
/// most 32 bits — widened with the value preserved.
pub open spec fn spec_to_i64(v: BufValue) -> Option<i64> {
    match v {
        BufValue::I64(x) => Some(x),
        BufValue::I32(x) => Some(x as i64),
        BufValue::I16(x) => Some(x as i64),
        BufValue::I8(x) => Some(x as i64),
        BufValue::U32(x) => Some(x as i64),
        BufValue::U16(x) => Some(x as i64),
        BufValue::U8(x) => Some(x as i64),
        _ => None,
    }
}

impl BufValue {
    /// The tag this value carries.
    pub fn tag(&self) -> (t: BufType)
        ensures
            t == tag_of(*self),
    {
        match self {
            BufValue::U8(_) => BufType::U8,
            BufValue::U16(_) => BufType::U16,
            BufValue::U32(_) => BufType::U32,
            BufValue::U64(_) => BufType::U64,
            BufValue::I8(_) => BufType::I8,
            BufValue::I16(_) => BufType::I16,
            BufValue::I32(_) => BufType::I32,
            BufValue::I64(_) => BufType::I64,
            BufValue::Float(_) => BufType::Float,
            BufValue::Double(_) => BufType::Double,
        }
    }

    /// View this value through the 8-bit unsigned representation.
    pub fn to_u8(&self) -> (r: Option<u8>)
        ensures
            r == spec_to_u8(*self),
    {
        match self {
            BufValue::U8(x) => Some(*x),
            BufValue::I8(x) => {
                if *x >= 0 {
                    Some(*x as u8)
                } else {
                    Some(((*x as i16) + 256) as u8)
                }
            },
            _ => None,
        }
    }

    /// View this value through the 16-bit unsigned representation.
    pub fn to_u16(&self) -> (r: Option<u16>)
        ensures
            r == spec_to_u16(*self),
    {
        match self {
            BufValue::U16(x) => Some(*x),
            BufValue::U8(x) => Some(*x as u16),
            _ => None,
        }
    }

    /// View this value through the 32-bit unsigned representation.
    pub fn to_u32(&self) -> (r: Option<u32>)
        ensures
            r == spec_to_u32(*self),
    {
        match self {
            BufValue::U32(x) => Some(*x),
            BufValue::U16(x) => Some(*x as u32),
            BufValue::U8(x) => Some(*x as u32),
            _ => None,
        }
    }

    /// View this value through the 64-bit unsigned representation.
    pub fn to_u64(&self) -> (r: Option<u64>)
        ensures
            r == spec_to_u64(*self),
    {
        match self {
            BufValue::U64(x) => Some(*x),
            BufValue::U32(x) => Some(*x as u64),
            BufValue::U16(x) => Some(*x as u64),
            BufValue::U8(x) => Some(*x as u64),
            _ => None,
        }
    }

    /// View this value through the 8-bit signed representation.
    pub fn to_i8(&self) -> (r: Option<i8>)
        ensures
            r == spec_to_i8(*self),
    {
        match self {
            BufValue::I8(x) => Some(*x),
            BufValue::U8(x) => {
                if *x < 128 {
                    Some(*x as i8)
                } else {
                    Some(((*x as i16) - 256) as i8)
                }
            },
            _ => None,
        }
    }

    /// View this value through the 16-bit signed representation.
    pub fn to_i16(&self) -> (r: Option<i16>)
        ensures
            r == spec_to_i16(*self),
    {
        match self {
            BufValue::I16(x) => Some(*x),
            BufValue::I8(x) => Some(*x as i16),
            BufValue::U8(x) => Some(*x as i16),
            _ => None,
        }
    }

    /// View this value through the 32-bit signed representation.
    pub fn to_i32(&self) -> (r: Option<i32>)
        ensures
            r == spec_to_i32(*self),
    {
        match self {
            BufValue::I32(x) => Some(*x),
            BufValue::I16(x) => Some(*x as i32),
            BufValue::I8(x) => Some(*x as i32),
            BufValue::U16(x) => Some(*x as i32),
            BufValue::U8(x) => Some(*x as i32),
            _ => None,
        }
    }

    /// View this value through the 64-bit signed representation.
    pub fn to_i64(&self) -> (r: Option<i64>)
        ensures
            r == spec_to_i64(*self),
    {
        match self {
            BufValue::I64(x) => Some(*x),
            BufValue::I32(x) => Some(*x as i64),
            BufValue::I16(x) => Some(*x as i64),
            BufValue::I8(x) => Some(*x as i64),
            BufValue::U32(x) => Some(*x as i64),
            BufValue::U16(x) => Some(*x as i64),
            BufValue::U8(x) => Some(*x as i64),
            _ => None,
        }
    }
}

/// Law: converting any unsigned value to the 64-bit unsigned representation
/// always succeeds and preserves the numeric value.
pub proof fn lemma_to_u64_widens(v: BufValue)
    requires
        tag_of(v) is U8 || tag_of(v) is U16 || tag_of(v) is U32 || tag_of(v) is U64,
    ensures
        spec_to_u64(v) matches Some(w) && w as int == int_value(v),
{
}

/// Law: converting any integer value whose mathematical value fits a 64-bit
/// signed representation — every signed value, and every unsigned one of at
/// most 32 bits — to that representation always succeeds and preserves the
/// numeric value.
pub proof fn lemma_to_i64_widens(v: BufValue)
    requires
        tag_of(v) is I8 || tag_of(v) is I16 || tag_of(v) is I32 || tag_of(v) is I64
            || tag_of(v) is U8 || tag_of(v) is U16 || tag_of(v) is U32,
    ensures
        spec_to_i64(v) matches Some(w) && w as int == int_value(v),
{
}

/// Law: converting an unsigned value of at most 16 bits to the 16-bit
/// unsigned representation always succeeds and preserves the numeric value.
pub proof fn lemma_to_u16_widens(v: BufValue)
    requires
        tag_of(v) is U8 || tag_of(v) is U16,
    ensures
        spec_to_u16(v) matches Some(w) && w as int == int_value(v),
{
}

/// Law: converting any integer value of at most 8 bits, or a 16-bit
/// signed one, to the 16-bit signed representation always succeeds and
/// preserves the numeric value.
pub proof fn lemma_to_i16_widens(v: BufValue)
    requires
        tag_of(v) is I8 || tag_of(v) is I16 || tag_of(v) is U8,
    ensures
        spec_to_i16(v) matches Some(w) && w as int == int_value(v),
{
}

/// Law: converting an unsigned value of at most 32 bits to the 32-bit
/// unsigned representation always succeeds and preserves the numeric value.
pub proof fn lemma_to_u32_widens(v: BufValue)
    requires
        tag_of(v) is U8 || tag_of(v) is U16 || tag_of(v) is U32,
    ensures
        spec_to_u32(v) matches Some(w) && w as int == int_value(v),
{
}

/// Law: converting any integer value of at most 16 bits, or a 32-bit signed
/// one, to the 32-bit signed representation always succeeds and preserves
/// the numeric value.
pub proof fn lemma_to_i32_widens(v: BufValue)
    requires
        tag_of(v) is I8 || tag_of(v) is I16 || tag_of(v) is I32 || tag_of(v) is U8
            || tag_of(v) is U16,
    ensures
        spec_to_i32(v) matches Some(w) && w as int == int_value(v),
{
}

} // verus!
