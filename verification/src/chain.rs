//! The pointer-chain walk: starting from a base address, repeatedly add an
//! offset, read the pointer-sized word stored there, and continue from the
//! value read.  The walk fails at the first offset whose target cannot be
//! read or whose sum overflows the 64-bit address space, and a failed step
//! fails the whole chain.
//!
//! `chain_spec` states the walk over a mathematical map from addresses to
//! words; `AddressSpace` is an explicit, in-memory address space on which
//! the very same walk runs as verified code, so that the walk's laws can be
//! exercised without a live foreign process.

use vstd::prelude::*;
use crate::enums::MemoryError;

verus! {

/// The result of walking `offsets` from `base` over the address space `m`:
/// an empty chain resolves to `base` unchanged; otherwise the first offset
/// is added to `base`, the word at that address is looked up, and the rest
/// of the chain is walked from the word found.  The walk yields nothing as
/// soon as a sum leaves the 64-bit address space or an address holds no
/// word.
pub open spec fn chain_spec(m: Map<u64, u64>, base: u64, offsets: Seq<u64>) -> Option<u64>
    decreases offsets.len(),
{
    if offsets.len() == 0 {
        Some(base)
    } else if base + offsets[0] > u64::MAX {
        None
    } else {
        let a = (base + offsets[0]) as u64;
        if m.dom().contains(a) {
            chain_spec(m, m[a], offsets.drop_first())
        } else {
            None
        }
    }
}

/// Law: a chain splits into its parts — walking `left + right` is walking
/// `left`, then walking `right` from where `left` arrived; and if `left`
/// already fails, the whole chain fails the same way.
pub proof fn lemma_chain_compose(m: Map<u64, u64>, base: u64, left: Seq<u64>, right: Seq<u64>)
    ensures
        chain_spec(m, base, left + right) == match chain_spec(m, base, left) {
            Some(mid) => chain_spec(m, mid, right),
            None => None::<u64>,
        },
    decreases left.len(),
{
    if left.len() == 0 {
        assert(left + right =~= right);
    } else {
        assert((left + right)[0] == left[0]);
        assert((left + right).drop_first() =~= left.drop_first() + right);
        if base + left[0] <= u64::MAX {
            let a = (base + left[0]) as u64;
            if m.dom().contains(a) {
                lemma_chain_compose(m, m[a], left.drop_first(), right);
            }
        }
    }
}

/// Law: the walk fails fast — once some prefix of the chain fails, the
/// whole chain fails, whatever offsets follow; the later offsets are never
/// consulted.
pub proof fn lemma_chain_fail_fast(m: Map<u64, u64>, base: u64, offsets: Seq<u64>, i: int)
    requires
        0 <= i <= offsets.len(),
        chain_spec(m, base, offsets.take(i)) is None,
    ensures
        chain_spec(m, base, offsets) is None,
{
    assert(offsets =~= offsets.take(i) + offsets.skip(i));
    lemma_chain_compose(m, base, offsets.take(i), offsets.skip(i));
}

/// The map an entry list denotes: later entries are shadowed by earlier
/// ones, so the entry nearest the front of the list wins.
pub open spec fn map_of(entries: Seq<(u64, u64)>) -> Map<u64, u64>
    decreases entries.len(),
{
    if entries.len() == 0 {
        Map::empty()
    } else {
        map_of(entries.drop_first()).insert(entries[0].0, entries[0].1)
    }
}

/// An explicit address space: a table of 64-bit words keyed by address.
/// It stands in for a foreign process's memory wherever the chain walk is
/// to be run on known contents.
pub struct AddressSpace {
    entries: Vec<(u64, u64)>,
}

impl AddressSpace {
    /// The mapping from addresses to the words stored there.
    pub closed spec fn view(&self) -> Map<u64, u64> {
        map_of(self.entries@)
    }

    /// An address space with no words at all.
    pub fn new() -> (r: AddressSpace)
        ensures
            r@ == Map::<u64, u64>::empty(),
    {
        AddressSpace { entries: Vec::new() }
    }

    /// Store `word` at `addr`, replacing whatever was there.
    pub fn set_word(&mut self, addr: u64, word: u64)
        ensures
            final(self)@ == old(self)@.insert(addr, word),
    {
        self.entries.insert(0, (addr, word));
        proof {
            assert(self.entries@.drop_first() =~= old(self).entries@);
        }
    }

    /// The word stored at `addr`, if any.
    pub fn read_word(&self, addr: u64) -> (r: Option<u64>)
        ensures
            r == if self@.dom().contains(addr) {
                Some(self@[addr])
            } else {
                None::<u64>
            },
    {
        let n = self.entries.len();
        let mut i: usize = 0;
        while i < n
            invariant
                i <= n == self.entries@.len(),
                forall|k: int| 0 <= k < i ==> self.entries@[k].0 != addr,
            decreases n - i,
        {
            let (a, w) = self.entries[i];
            if a == addr {
                proof {
                    lemma_map_of_first(self.entries@, addr, i as int);
                }
                return Some(w);
            }
            i = i + 1;
        }
        proof {
            lemma_map_of_absent(self.entries@, addr);
        }
        None
    }

    /// Walk a pointer chain over this address space: the executable form
    /// of `chain_spec`, step for step.
    pub fn resolve_chain(&self, base: u64, offsets: &[u64]) -> (r: Option<u64>)
        ensures
            r == chain_spec(self@, base, offsets@),
    {
        let n = offsets.len();
        let mut addr = base;
        let mut i: usize = 0;
        proof {
            assert(offsets@.skip(0) =~= offsets@);
        }
        while i < n
            invariant
                i <= n == offsets@.len(),
                chain_spec(self@, base, offsets@) == chain_spec(self@, addr, offsets@.skip(i as int)),
            decreases n - i,
        {
            proof {
                let rest = offsets@.skip(i as int);
                assert(rest[0] == offsets@[i as int]);
                assert(rest.drop_first() =~= offsets@.skip(i as int + 1));
            }
            let off = offsets[i];
            if off > u64::MAX - addr {
                return None;
            }
            let at = addr + off;
            match self.read_word(at) {
                Some(w) => {
                    addr = w;
                },
                None => {
                    return None;
                },
            }
            i = i + 1;
        }
        proof {
            assert(offsets@.skip(n as int) =~= Seq::<u64>::empty());
        }
        Some(addr)
    }
}

/// If the entry at `i` is the first whose address is `k`, the map holds its
/// word at `k`.
proof fn lemma_map_of_first(entries: Seq<(u64, u64)>, k: u64, i: int)
    requires
        0 <= i < entries.len(),
        entries[i].0 == k,
        forall|j: int| 0 <= j < i ==> entries[j].0 != k,
    ensures
        map_of(entries).dom().contains(k),
        map_of(entries)[k] == entries[i].1,
    decreases entries.len(),
{
    if i > 0 {
        lemma_map_of_first(entries.drop_first(), k, i - 1);
    }
}

/// If no entry carries address `k`, the map holds nothing at `k`.
proof fn lemma_map_of_absent(entries: Seq<(u64, u64)>, k: u64)
    requires
        forall|j: int| 0 <= j < entries.len() ==> entries[j].0 != k,
    ensures
        !map_of(entries).dom().contains(k),
    decreases entries.len(),
{
    if entries.len() > 0 {
        lemma_map_of_absent(entries.drop_first(), k);
    }
}

} // verus!
