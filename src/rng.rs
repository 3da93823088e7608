//! The splitting generator: sampling, splitting, snapshots and replay.
use crate::hash::{keys_for, shuffle_keys};
use crate::order::{order_by_keys, ordered_by_keys};
use crate::pool::{pool_bit, BooleanList, LARGEST_SAFE_INDEX};
use crate::source::WordSource;
use vstd::arithmetic::div_mod::lemma_fundamental_div_mod;
use vstd::prelude::*;

verus! {

/// A generator's complete state as plain numbers:
/// `(origin, steps, pool word, booleans drawn from the pool word)`.
pub type RawState = (u64, u64, u64, u8);

/// The word that the next step of a generator in state `s` draws: the
/// source was seeded with `s.0`, drew one word for the first boolean pool
/// and then one per step.
pub open spec fn next_word_of<T: WordSource>(s: RawState) -> u64 {
    T::word(s.0, (s.1 + 1) as nat)
}

/// State `s` after one step.
pub open spec fn advanced(s: RawState) -> RawState {
    (s.0, (s.1 + 1) as u64, s.2, s.3)
}

/// The state of a generator fresh from `origin`: no steps taken, and a
/// boolean pool over the first word of the stream.
pub open spec fn initial_state<T: WordSource>(origin: u64) -> RawState {
    (origin, 0, T::word(origin, 0), 0)
}

/// The state after one boolean is drawn from `s`, and that boolean. An
/// exhausted pool is replaced by one over the next word, which then serves
/// the boolean.
pub open spec fn bool_step<T: WordSource>(s: RawState) -> (RawState, bool) {
    if s.3 < LARGEST_SAFE_INDEX {
        ((s.0, s.1, s.2, (s.3 + 1) as u8), pool_bit(s.2, s.3))
    } else {
        let w = next_word_of::<T>(s);
        ((s.0, (s.1 + 1) as u64, w, 1u8), pool_bit(w, 0))
    }
}

/// A roll of a die with `sides` sides from `word`: its three lowest bits
/// dropped, reduced modulo `sides`; 0 for a die without sides.
pub open spec fn roll_of(word: u64, sides: u32) -> u32 {
    if sides == 0 {
        0
    } else {
        ((word >> 3) % (sides as u64)) as u32
    }
}

/// Whether a generator in state `s` can draw `n` more words without its
/// step counter passing `u64::MAX`.
pub open spec fn can_step(s: RawState, n: nat) -> bool {
    s.1 + n <= u64::MAX
}

/// The largest multiple of `sides` that fits in 64 bits lies above every
/// value of 61 bits.
proof fn lemma_fair_threshold(sides: u64)
    requires
        1 <= sides <= u32::MAX,
    ensures
        sides * (u64::MAX / sides) <= u64::MAX,
        sides * (u64::MAX / sides) >= 0x2000_0000_0000_0000,
{
    lemma_fundamental_div_mod(u64::MAX as int, sides as int);
    let q = u64::MAX as int / sides as int;
    let r = u64::MAX as int % sides as int;
    assert(sides * q == u64::MAX - r);
}

/// A splitting generator over a seedable word source.
///
/// Far from cryptographically secure, but hard to predict as long as the
/// moments at which it is split are themselves driven by its output.
pub struct SplittingRng<T: WordSource> {
    origin: u64,
    steps: u64,
    prng: T,
    bool_pool: BooleanList,
}

impl<T: WordSource> View for SplittingRng<T> {
    type V = RawState;

    closed spec fn view(&self) -> RawState {
        (self.origin, self.steps, self.bool_pool.inner, self.bool_pool.last)
    }
}

impl<T: WordSource> SplittingRng<T> {
    /// The source was seeded with `origin` and has drawn the first pool's
    /// word and one word per step.
    pub closed spec fn wf(&self) -> bool {
        &&& self.prng.seed() == self.origin
        &&& self.prng.drawn() == self.steps + 1
    }

    /// Creates a generator whose source is seeded with `origin`.
    pub fn new(origin: u64) -> (r: Self)
        ensures
            r.wf(),
            r@ == initial_state::<T>(origin),
    {
        let mut root_rng = T::from_seed(origin);
        let bool_p = BooleanList::new(root_rng.next_word());
        SplittingRng { origin, steps: 0, prng: root_rng, bool_pool: bool_p }
    }

    /// Replays the stream from `origin` for `steps` steps, then restores the
    /// boolean pool. Slow for large `steps`: the source cannot jump ahead.
    fn fast_forward_from_origin(origin: u64, steps: u64, bools: (u64, u8)) -> (r: Self)
        ensures
            r.wf(),
            r@ == (origin, steps, bools.0, bools.1),
    {
        let mut result = Self::new(origin);
        let mut k: u64 = 0;
        while k < steps
            invariant
                k <= steps,
                result.wf(),
                result@.0 == origin,
                result@.1 == k,
            decreases steps - k,
        {
            result.step();
            k = k + 1;
        }
        result.bool_pool = BooleanList::new(bools.0);
        result.bool_pool.last = bools.1;
        result
    }

    /// The generator's state as `(origin, steps, pool word, pool position)`.
    pub fn to_raw(&self) -> (r: RawState)
        ensures
            r == self@,
    {
        (self.origin, self.steps, self.bool_pool.inner, self.bool_pool.last)
    }

    /// Rebuilds a generator from the state `to_raw` gave. The same source
    /// type must be used; the cost grows with the number of steps.
    pub fn from_raw(raw: RawState) -> (r: Self)
        ensures
            r.wf(),
            r@ == raw,
    {
        let (origin, steps, inner, last) = raw;
        Self::fast_forward_from_origin(origin, steps, (inner, last))
    }

    /// Splits off a child generator seeded with this generator's next word.
    /// Each call steps this generator, so successive children differ.
    pub fn split(&mut self) -> (child: SplittingRng<T>)
        requires
            old(self).wf(),
            can_step(old(self)@, 1),
        ensures
            final(self).wf(),
            final(self)@ == advanced(old(self)@),
            child.wf(),
            child@ == initial_state::<T>(next_word_of::<T>(old(self)@)),
    {
        SplittingRng::new(self.step())
    }

    /// A random boolean, from the pool, refilled when exhausted.
    pub fn get_bool(&mut self) -> (r: bool)
        requires
            old(self).wf(),
            old(self)@.3 >= LARGEST_SAFE_INDEX ==> can_step(old(self)@, 1),
        ensures
            final(self).wf(),
            (final(self)@, r) == bool_step::<T>(old(self)@),
    {
        if let Some(r) = self.bool_pool.next() {
            return r;
        }
        self.bool_pool = BooleanList::new(self.step());
        self.bool_pool.next().expect("Failed to use new boolean pool")
    }

    /// A random 32-bit integer: the high half of the next word, whose low
    /// bits are the less random ones.
    pub fn get_u32(&mut self) -> (r: u32)
        requires
            old(self).wf(),
            can_step(old(self)@, 1),
        ensures
            final(self).wf(),
            final(self)@ == advanced(old(self)@),
            r == (next_word_of::<T>(old(self)@) >> 32) as u32,
    {
        let w = self.step();
        assert(w >> 32 <= u32::MAX) by (bit_vector);
        (w >> 32) as u32
    }

    /// A random 64-bit integer. Its three lowest bits are less random than
    /// the rest.
    pub fn get_u64(&mut self) -> (r: u64)
        requires
            old(self).wf(),
            can_step(old(self)@, 1),
        ensures
            final(self).wf(),
            final(self)@ == advanced(old(self)@),
            r == next_word_of::<T>(old(self)@),
    {
        self.step()
    }

    /// Rolls a die with `sides` sides by reducing one word modulo `sides`.
    /// Fast, but not exactly uniform where `sides` does not divide 2^61.
    /// A die without sides rolls 0 and draws nothing.
    pub fn biased_roll(&mut self, sides: u32) -> (r: u32)
        requires
            old(self).wf(),
            can_step(old(self)@, 1),
        ensures
            final(self).wf(),
            sides == 0 ==> r == 0 && final(self)@ == old(self)@,
            sides > 0 ==> {
                &&& r < sides
                &&& r == roll_of(next_word_of::<T>(old(self)@), sides)
                &&& final(self)@ == advanced(old(self)@)
            },
    {
        if sides == 0 {
            return 0;
        }
        // The lowest three bits are the less random ones.
        ((self.step() >> 3) % (sides as u64)) as u32
    }

    /// Rolls a die with `sides` sides by rejection: a draw above the largest
    /// multiple of `sides` that fits in 64 bits is drawn again. A draw has
    /// 61 bits, below that multiple, so the first is always kept.
    /// A die without sides rolls 0 and draws nothing.
    pub fn fair_roll(&mut self, sides: u32) -> (r: u32)
        requires
            old(self).wf(),
            can_step(old(self)@, 1),
        ensures
            final(self).wf(),
            sides == 0 ==> r == 0 && final(self)@ == old(self)@,
            sides > 0 ==> {
                &&& r < sides
                &&& r == roll_of(next_word_of::<T>(old(self)@), sides)
                &&& final(self)@ == advanced(old(self)@)
            },
    {
        if sides == 0 {
            return 0;
        }
        let ghost start = self@;
        let d = sides as u64;
        let w = self.step();
        let mut step = w >> 3;
        assert(w >> 3 < 0x2000_0000_0000_0000) by (bit_vector);
        loop
            invariant
                1 <= d <= u32::MAX,
                d == sides,
                start == old(self)@,
                self.wf(),
                self@ == advanced(start),
                step == next_word_of::<T>(start) >> 3,
                step < 0x2000_0000_0000_0000,
            decreases step,
        {
            proof {
                lemma_fair_threshold(d);
            }
            // The largest number under which the roll is fair.
            let biggest = d * (u64::MAX / d);
            if step > biggest {
                step = self.step() >> 3;
            } else {
                return (step % d) as u32;
            }
        }
    }

    /// Returns the items of `list` in a random order: each item gets a key
    /// from a keyed hash of its salted index, and the items are stably
    /// sorted by key. Two words are drawn, the salt and the hash key.
    pub fn shuffle<L: Copy>(&mut self, list: &[L]) -> (r: Vec<L>)
        requires
            old(self).wf(),
            can_step(old(self)@, 2),
        ensures
            final(self).wf(),
            final(self)@ == advanced(advanced(old(self)@)),
            r@ == ordered_by_keys(
                shuffle_keys(
                    T::word(old(self)@.0, (old(self)@.1 + 2) as nat),
                    next_word_of::<T>(old(self)@),
                    list@.len(),
                ),
                list@,
            ),
            r@.to_multiset() == list@.to_multiset(),
    {
        let item_ct = list.len();
        // A little extra randomness goes into a salt.
        let salt = self.step();
        let key = self.step();
        let keys = keys_for(key, salt, item_ct);
        order_by_keys(keys.as_slice(), list)
    }

    /// Draws the next word and counts the step.
    fn step(&mut self) -> (w: u64)
        requires
            old(self).wf(),
            can_step(old(self)@, 1),
        ensures
            final(self).wf(),
            final(self)@ == advanced(old(self)@),
            w == next_word_of::<T>(old(self)@),
    {
        self.steps = self.steps + 1;
        self.prng.next_word()
    }
}

} // verus!
