//! A session against one foreign process: a typed read or write at a raw
//! virtual address, and the pointer-chain walk over the live process.
//!
//! The two operating-system copy primitives come from outside crates and
//! are trusted behind small wrappers; everything around them — buffer
//! sizing, decoding, the chain walk and its fail-fast policy — is
//! verified.  What a copy brings back depends on the foreign process's
//! memory at that moment, so the wrappers promise nothing about the bytes,
//! and every consumer of those bytes is verified for each value they may
//! take.

use vstd::prelude::*;
use crate::codec::decode;
use crate::enums::{BufType, BufValue, MemoryError, spec_to_u64, tag_of};
use process_memory::{Memory, TryIntoProcessHandle};
use read_process_memory::CopyAddress;

verus! {

/// One session's anchor: the identifier of the target process and the
/// base address resolved for it.  Created empty; filled once at session
/// start; immutable thereafter.
pub struct MemoryHandler {
    pub pid: Option<u32>,
    pub base_addr: Option<u64>,
}

/// The ASCII-lowercase image of a byte.
pub open spec fn ascii_lower(b: u8) -> u8 {
    if 65 <= b && b <= 90 {
        (b + 32) as u8
    } else {
        b
    }
}

/// Two process names match when they are equal byte for byte up to ASCII
/// case.
pub open spec fn names_match(a: Seq<u8>, b: Seq<u8>) -> bool {
    a.map_values(|x: u8| ascii_lower(x)) == b.map_values(|x: u8| ascii_lower(x))
}

/// The pointer a decoded value stands for in a chain walk: the payload of
/// a 64-bit unsigned word, or of a 64-bit signed one reinterpreted modulo
/// 2^64; any other representation resolves no pointer.
pub open spec fn spec_chain_step(v: BufValue) -> Option<u64> {
    match v {
        BufValue::U64(x) => Some(x),
        BufValue::I64(x) => Some(
            (if x >= 0 { x as int } else { x + 0x1_0000_0000_0000_0000 }) as u64,
        ),
        _ => None,
    }
}

/// Whether a process name equals the wanted one, ignoring ASCII case:
/// the match rule a process lookup applies to each running process.
pub fn process_name_matches(a: &Vec<u8>, b: &Vec<u8>) -> (r: bool)
    ensures
        r == names_match(a@, b@),
{
    let n = a.len();
    if n != b.len() {
        proof {
            assert(a@.map_values(|x: u8| ascii_lower(x)).len() == a@.len());
            assert(b@.map_values(|x: u8| ascii_lower(x)).len() == b@.len());
        }
        return false;
    }
    let mut i: usize = 0;
    while i < n
        invariant
            i <= n == a@.len(),
            n == b@.len(),
            forall|k: int| 0 <= k < i ==> ascii_lower(a@[k]) == ascii_lower(b@[k]),
        decreases n - i,
    {
        let x = a[i];
        let y = b[i];
        let lx = if 65 <= x && x <= 90 {
            x + 32
        } else {
            x
        };
        let ly = if 65 <= y && y <= 90 {
            y + 32
        } else {
            y
        };
        if lx != ly {
            proof {
                assert(a@.map_values(|c: u8| ascii_lower(c))[i as int] == ascii_lower(a@[i as int]));
                assert(b@.map_values(|c: u8| ascii_lower(c))[i as int] == ascii_lower(b@[i as int]));
            }
            return false;
        }
        i = i + 1;
    }
    proof {
        assert(a@.map_values(|c: u8| ascii_lower(c)) =~= b@.map_values(|c: u8| ascii_lower(c)));
    }
    true
}

/// Relies on read_process_memory: `ProcessHandle` is made from the process
/// identifier, and `CopyAddress::copy_address` copies `len` bytes starting
/// at `addr` out of that process's address space into the buffer, or
/// reports failure.  What the bytes hold depends on the foreign process at
/// the moment of the call, so only the buffer's length is stated.
#[verifier::external_body]
fn copy_process_bytes(pid: u32, addr: u64, len: usize) -> (r: Option<Vec<u8>>)
    ensures
        r matches Some(buf) ==> buf@.len() == len,
{
    let handle: read_process_memory::ProcessHandle =
        match (pid as read_process_memory::Pid).try_into() {
            Ok(h) => h,
            Err(_) => return None,
        };
    let mut buf = vec![0u8; len];
    match handle.copy_address(addr as usize, &mut buf) {
        Ok(()) => Some(buf),
        Err(_) => None,
    }
}

/// Relies on process_memory: a handle is made from the process identifier
/// with `TryIntoProcessHandle`, and `DataMember::<u64>::write` copies the
/// eight bytes of `word` into that process at `addr`, or reports failure.
/// Whether the copy takes depends on the foreign process, so nothing more
/// is stated.
#[verifier::external_body]
fn put_process_word(pid: u32, addr: u64, word: u64) -> (r: bool) {
    let handle = match (pid as process_memory::Pid).try_into_process_handle() {
        Ok(h) => h,
        Err(_) => return false,
    };
    let member = process_memory::DataMember::<u64>::new_offset(handle, vec![addr as usize]);
    member.write(&word).is_ok()
}

impl MemoryHandler {
    /// A session with no process attached yet.
    pub fn new() -> (r: MemoryHandler)
        ensures
            r.pid is None,
            r.base_addr is None,
    {
        MemoryHandler { pid: None, base_addr: None }
    }

    /// A session anchored once and for all: the process found and the
    /// base address resolved for it are set here and never change again.
    pub fn attach(pid: u32, base_addr: u64) -> (r: MemoryHandler)
        ensures
            r.pid == Some(pid),
            r.base_addr == Some(base_addr),
    {
        MemoryHandler { pid: Some(pid), base_addr: Some(base_addr) }
    }

    /// Read one value of representation `typo` at `addr` in the target
    /// process: a buffer of exactly the tag's width is copied out and
    /// decoded, so a successful read always carries the requested tag.
    /// Any copy failure — the process gone, the page unmapped, access
    /// denied — surfaces as `ReadFailed`.
    pub fn read_addr(&self, pid: u32, addr: u64, typo: &BufType) -> (r: Result<
        BufValue,
        MemoryError,
    >)
        ensures
            r matches Ok(v) ==> tag_of(v) == *typo,
            r matches Err(e) ==> e == MemoryError::ReadFailed,
    {
        let len = typo.bytes();
        match copy_process_bytes(pid, addr, len) {
            Some(buf) => Ok(decode(&buf, typo)),
            None => Err(MemoryError::ReadFailed),
        }
    }

    /// Write a value into the target process at `addr`.  The value is
    /// carried through its 64-bit unsigned representation and written as
    /// one full 8-byte word; a value with no such representation — a
    /// signed or floating-point one — is rejected as
    /// `TypeConversionUnsupported` and nothing is written.
    pub fn write_addr(&self, pid: u32, addr: u64, value: BufValue) -> (r: Result<
        (),
        MemoryError,
    >)
        ensures
            spec_to_u64(value) is None <==> r == Err::<(), MemoryError>(
                MemoryError::TypeConversionUnsupported,
            ),
            spec_to_u64(value) is Some ==> (r == Ok::<(), MemoryError>(()) || r == Err::<
                (),
                MemoryError,
            >(MemoryError::WriteFailed)),
    {
        match value.to_u64() {
            Some(word) => {
                if put_process_word(pid, addr, word) {
                    Ok(())
                } else {
                    Err(MemoryError::WriteFailed)
                }
            },
            None => Err(MemoryError::TypeConversionUnsupported),
        }
    }

    /// Walk a pointer chain in the live target process: for each offset in
    /// order, add it to the current address, read one value of `typo`
    /// there, and continue from the pointer that value stands for.  An
    /// empty chain returns `base` untouched, with no read issued.  The
    /// first failed step — a failed read, a representation that stands for
    /// no pointer, or a sum leaving the 64-bit address space — fails the
    /// whole call with `PointerChainResolutionFailed`; later offsets are
    /// never read.
    pub fn resolve_ptr_chain(&self, pid: u32, base: u64, offsets: &[u64], typo: &BufType) -> (r:
        Result<u64, MemoryError>)
        ensures
            offsets@.len() == 0 ==> r == Ok::<u64, MemoryError>(base),
            r matches Err(e) ==> e == MemoryError::PointerChainResolutionFailed,
            offsets@.len() > 0 && !(*typo is U64) && !(*typo is I64) ==> r is Err,
            offsets@.len() > 0 && base + offsets@[0] > u64::MAX ==> r == Err::<u64, MemoryError>(
                MemoryError::PointerChainResolutionFailed,
            ),
    {
        let mut addr = base;
        let n = offsets.len();
        let mut i: usize = 0;
        while i < n
            invariant
                i <= n == offsets@.len(),
                i == 0 ==> addr == base,
                i > 0 ==> (*typo is U64 || *typo is I64),
                i > 0 ==> base + offsets@[0] <= u64::MAX,
            decreases n - i,
        {
            let off = offsets[i];
            if off > u64::MAX - addr {
                return Err(MemoryError::PointerChainResolutionFailed);
            }
            let at = addr + off;
            match self.read_addr(pid, at, typo) {
                Ok(v) => {
                    match chain_step(&v) {
                        Some(word) => {
                            addr = word;
                        },
                        None => {
                            return Err(MemoryError::PointerChainResolutionFailed);
                        },
                    }
                },
                Err(_) => {
                    return Err(MemoryError::PointerChainResolutionFailed);
                },
            }
            i = i + 1;
        }
        Ok(addr)
    }
}

/// The pointer a decoded value stands for, if its representation is one
/// of the two 64-bit integer ones.
pub fn chain_step(v: &BufValue) -> (r: Option<u64>)
    ensures
        r == spec_chain_step(*v),
{
    match v {
        BufValue::U64(x) => Some(*x),
        BufValue::I64(x) => {
            if *x >= 0 {
                Some(*x as u64)
            } else {
                Some(((*x - i64::MIN) as u64) + 0x8000_0000_0000_0000u64)
            }
        },
        _ => None,
    }
}

} // verus!
