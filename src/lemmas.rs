//! What holds of every generator: reproducibility, replay and the pool size.
use crate::pool::LARGEST_SAFE_INDEX;
use crate::rng::{
    advanced, bool_step, can_step, initial_state, next_word_of, RawState,
};
use crate::source::WordSource;
use vstd::prelude::*;

verus! {

/// The words that `n` successive calls of `get_u64` return from state `s`.
pub open spec fn u64_run<T: WordSource>(s: RawState, n: nat) -> Seq<u64>
    decreases n,
{
    if n == 0 {
        Seq::empty()
    } else {
        seq![next_word_of::<T>(s)] + u64_run::<T>(advanced(s), (n - 1) as nat)
    }
}

/// The state after `n` successive calls of `get_bool` from state `s`.
pub open spec fn bool_run<T: WordSource>(s: RawState, n: nat) -> RawState
    decreases n,
{
    if n == 0 {
        s
    } else {
        bool_step::<T>(bool_run::<T>(s, (n - 1) as nat)).0
    }
}

/// The children that two successive calls of `split` create from state `s`.
pub open spec fn split_twice<T: WordSource>(s: RawState) -> (RawState, RawState) {
    (
        initial_state::<T>(next_word_of::<T>(s)),
        initial_state::<T>(next_word_of::<T>(advanced(s))),
    )
}

/// The next `n` words drawn from state `s` are the stream words that
/// follow its step count: they depend on the origin and the steps alone.
pub proof fn lemma_u64_run_words<T: WordSource>(s: RawState, n: nat)
    requires
        can_step(s, n),
    ensures
        u64_run::<T>(s, n) == Seq::new(n, |i: int| T::word(s.0, (s.1 + 1 + i) as nat)),
    decreases n,
{
    if n > 0 {
        let t = advanced(s);
        lemma_u64_run_words::<T>(t, (n - 1) as nat);
        assert(u64_run::<T>(s, n) =~= Seq::new(n, |i: int| T::word(s.0, (s.1 + 1 + i) as nat)));
    }
}

/// Two generators fresh from the same origin give the same words, whatever
/// their number: the `i`-th call of `get_u64` returns stream word `i + 1`.
pub proof fn lemma_fresh_generators_agree<T: WordSource>(origin: u64, n: nat)
    requires
        n <= u64::MAX,
    ensures
        u64_run::<T>(initial_state::<T>(origin), n) == Seq::new(
            n,
            |i: int| T::word(origin, (i + 1) as nat),
        ),
{
    lemma_u64_run_words::<T>(initial_state::<T>(origin), n);
    assert(Seq::new(n, |i: int| T::word(origin, (0 + 1 + i) as nat)) =~= Seq::new(
        n,
        |i: int| T::word(origin, (i + 1) as nat),
    ));
}

/// A generator rebuilt from a snapshot (same origin and steps) gives the
/// same next `n` words as the generator the snapshot was taken of.
pub proof fn lemma_round_trip<T: WordSource>(g: RawState, restored: RawState, n: nat)
    requires
        restored.0 == g.0,
        restored.1 == g.1,
        can_step(g, n),
    ensures
        u64_run::<T>(restored, n) == u64_run::<T>(g, n),
{
    lemma_u64_run_words::<T>(g, n);
    lemma_u64_run_words::<T>(restored, n);
}

/// Two successive splits of one generator give children with different
/// origins when the two words they are seeded with differ, and a
/// generator rebuilt from a snapshot taken before the splits gives the
/// same two children.
pub proof fn lemma_split_replay<T: WordSource>(g: RawState, restored: RawState)
    requires
        restored.0 == g.0,
        restored.1 == g.1,
        can_step(g, 2),
    ensures
        split_twice::<T>(restored) == split_twice::<T>(g),
        T::word(g.0, (g.1 + 1) as nat) != T::word(g.0, (g.1 + 2) as nat) ==> split_twice::<T>(
            g,
        ).0.0 != split_twice::<T>(g).1.0,
{
}

/// A fresh boolean pool serves exactly `LARGEST_SAFE_INDEX` booleans
/// without a step; the next boolean takes one step to refill it.
pub proof fn lemma_bool_pool_bound<T: WordSource>(s: RawState)
    requires
        s.3 == 0,
        can_step(s, 1),
    ensures
        bool_run::<T>(s, LARGEST_SAFE_INDEX as nat).1 == s.1,
        bool_run::<T>(s, LARGEST_SAFE_INDEX as nat + 1).1 == s.1 + 1,
{
    lemma_bool_prefix::<T>(s, LARGEST_SAFE_INDEX as nat);
}

proof fn lemma_bool_prefix<T: WordSource>(s: RawState, k: nat)
    requires
        s.3 == 0,
        k <= LARGEST_SAFE_INDEX,
    ensures
        bool_run::<T>(s, k) == (s.0, s.1, s.2, k as u8),
    decreases k,
{
    if k > 0 {
        lemma_bool_prefix::<T>(s, (k - 1) as nat);
    }
}

} // verus!
