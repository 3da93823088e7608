//! A pool that hands out up to `LARGEST_SAFE_INDEX` booleans from one word.
use vstd::prelude::*;

verus! {

/// How many booleans one word yields. The lowest bits of a generated word
/// are less random than the rest, so only this many bits are drawn upon.
pub const LARGEST_SAFE_INDEX: u8 = 61;

/// The boolean drawn from `word` when `consumed` booleans have been drawn
/// before: true when the tested bit (bit `12 + consumed`, shifted in a
/// 64-bit word, so past bit 63 nothing is tested) is clear.
pub open spec fn pool_bit(word: u64, consumed: u8) -> bool {
    ((0x1000u64 << consumed) & word) == 0
}

/// A helper that splits one 64-bit word into up to
/// `LARGEST_SAFE_INDEX` booleans.
pub struct BooleanList {
    pub inner: u64,
    pub last: u8,
}

impl BooleanList {
    /// A fresh pool over `base`, with nothing drawn yet.
    pub fn new(base: u64) -> (r: BooleanList)
        ensures
            r.inner == base,
            r.last == 0,
    {
        BooleanList { inner: base, last: 0 }
    }

    /// The next boolean of the pool, or `None` once it is exhausted.
    pub fn next(&mut self) -> (r: Option<bool>)
        ensures
            final(self).inner == old(self).inner,
            old(self).last < LARGEST_SAFE_INDEX ==> {
                &&& r == Some(pool_bit(old(self).inner, old(self).last))
                &&& final(self).last == old(self).last + 1
            },
            old(self).last >= LARGEST_SAFE_INDEX ==> {
                &&& r is None
                &&& final(self).last == old(self).last
            },
    {
        if self.last < LARGEST_SAFE_INDEX {
            // The three lowest bits are never tested.
            let result = ((0x1000u64 << self.last) & self.inner) == 0;
            self.last = self.last + 1;
            return Some(result);
        }
        None
    }
}

} // verus!
