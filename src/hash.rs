//! The keys by which a shuffle orders its items.
use fnv::FnvHasher;
use std::hash::Hasher;
use vstd::prelude::*;

verus! {

/// The state of an FNV-1a hasher that held `state`, after it absorbed the
/// eight little-endian bytes of `x`.
pub uninterp spec fn fnv_absorb(state: u64, x: u64) -> u64;

/// Relies on fnv's `FnvHasher`: `with_key` starts the hash at `state`,
/// `write` folds the given bytes into it, and `finish` returns the hash,
/// which is the whole of the hasher's state.
#[verifier::external_body]
fn fnv_absorb_u64(state: u64, x: u64) -> (r: u64)
    ensures
        r == fnv_absorb(state, x),
{
    let mut hasher = FnvHasher::with_key(state);
    hasher.write(&x.to_le_bytes());
    hasher.finish()
}

/// `salt + idx`, wrapping at 64 bits.
pub open spec fn salted(salt: u64, idx: nat) -> u64 {
    ((salt + idx) % 0x1_0000_0000_0000_0000) as u64
}

/// The hash after the salted indices `0 .. i` were written, one after the
/// other, into a hasher keyed with `key`.
pub open spec fn hasher_state(key: u64, salt: u64, i: nat) -> u64
    decreases i,
{
    if i == 0 {
        key
    } else {
        fnv_absorb(hasher_state(key, salt, (i - 1) as nat), salted(salt, (i - 1) as nat))
    }
}

/// A hash folded to 32 bits (low half OR high half), reduced modulo the
/// number of items.
pub open spec fn folded_key(hash: u64, item_ct: u64) -> u64
    recommends
        item_ct > 0,
{
    (((hash & 0xffff_ffff) | (hash >> 32)) % item_ct) as u64
}

/// The keys of a shuffle of `n` items: the key of item `i` is the hash
/// right after the salted index `i` was written.
pub open spec fn shuffle_keys(key: u64, salt: u64, n: nat) -> Seq<u64> {
    Seq::new(n, |i: int| folded_key(hasher_state(key, salt, (i + 1) as nat), n as u64))
}

/// Folds a 64-bit hash to 32 bits and reduces it modulo `item_ct`.
pub fn shuffle_key(hash: u64, item_ct: u64) -> (r: u64)
    requires
        item_ct > 0,
    ensures
        r == folded_key(hash, item_ct),
        r < item_ct,
{
    ((hash & 0xffff_ffff) | (hash >> 32)) % item_ct
}

/// The keys of a shuffle of `n` items, from a hasher keyed with `key`
/// that absorbs `salt + i` (wrapping) for each index `i` in turn.
pub fn keys_for(key: u64, salt: u64, n: usize) -> (r: Vec<u64>)
    ensures
        r@ == shuffle_keys(key, salt, n as nat),
{
    let mut keys: Vec<u64> = Vec::new();
    let mut state: u64 = key;
    let mut i: usize = 0;
    while i < n
        invariant
            i <= n,
            state == hasher_state(key, salt, i as nat),
            keys@ =~= shuffle_keys(key, salt, n as nat).take(i as int),
        decreases n - i,
    {
        let s = salt.wrapping_add(i as u64);
        assert(s == salted(salt, i as nat));
        state = fnv_absorb_u64(state, s);
        keys.push(shuffle_key(state, n as u64));
        i = i + 1;
    }
    keys
}

} // verus!
