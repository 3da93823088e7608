//! Stable ordering of items by 64-bit keys.
use vstd::prelude::*;

verus! {

/// Inserts `p` into `s` just before the first pair, counted from the back,
/// whose key is not greater than `p`'s; in a sequence sorted by key, that
/// is after every pair with a key up to `p.0`.
pub open spec fn insert_by_key<L>(s: Seq<(u64, L)>, p: (u64, L)) -> Seq<(u64, L)>
    decreases s.len(),
{
    if s.len() == 0 {
        seq![p]
    } else if p.0 < s.last().0 {
        insert_by_key(s.drop_last(), p).push(s.last())
    } else {
        s.push(p)
    }
}

/// `s` stably sorted by key: equal keys keep the order they had in `s`.
pub open spec fn sort_by_key<L>(s: Seq<(u64, L)>) -> Seq<(u64, L)>
    decreases s.len(),
{
    if s.len() == 0 {
        s
    } else {
        insert_by_key(sort_by_key(s.drop_last()), s.last())
    }
}

/// Each item paired with the key at its index.
pub open spec fn keyed<L>(keys: Seq<u64>, items: Seq<L>) -> Seq<(u64, L)> {
    Seq::new(items.len(), |i: int| (keys[i], items[i]))
}

/// The items of a keyed sequence, in order.
pub open spec fn items_of<L>(s: Seq<(u64, L)>) -> Seq<L> {
    s.map_values(|p: (u64, L)| p.1)
}

/// `items` stably sorted by `keys`: the item at index `i` takes the key
/// `keys[i]`, and items with equal keys keep their relative order.
pub open spec fn ordered_by_keys<L>(keys: Seq<u64>, items: Seq<L>) -> Seq<L> {
    items_of(sort_by_key(keyed(keys, items)))
}

proof fn lemma_insert_at<L>(s: Seq<(u64, L)>, p: (u64, L), j: int)
    requires
        0 <= j <= s.len(),
        forall|m: int| j <= m < s.len() ==> p.0 < #[trigger] s[m].0,
        j == 0 || s[j - 1].0 <= p.0,
    ensures
        insert_by_key(s, p) == s.insert(j, p),
    decreases s.len(),
{
    if s.len() == 0 {
        assert(seq![p] =~= s.insert(j, p));
    } else if j == s.len() {
        assert(s.push(p) =~= s.insert(j, p));
    } else {
        let t = s.drop_last();
        assert(p.0 < s[s.len() - 1].0);
        assert forall|m: int| j <= m < t.len() implies p.0 < #[trigger] t[m].0 by {
            assert(t[m] == s[m]);
        }
        lemma_insert_at(t, p, j);
        assert(t.insert(j, p).push(s.last()) =~= s.insert(j, p));
    }
}

proof fn lemma_insert_items<L>(s: Seq<(u64, L)>, p: (u64, L))
    ensures
        items_of(insert_by_key(s, p)).to_multiset() == items_of(s).to_multiset().insert(p.1),
    decreases s.len(),
{
    broadcast use vstd::seq_lib::group_to_multiset_ensures;

    if s.len() == 0 {
        assert(items_of(seq![p]) =~= items_of(s).push(p.1));
    } else if p.0 < s.last().0 {
        let t = s.drop_last();
        lemma_insert_items(t, p);
        assert(items_of(insert_by_key(t, p).push(s.last())) =~= items_of(insert_by_key(t, p)).push(
            s.last().1,
        ));
        assert(items_of(s) =~= items_of(t).push(s.last().1));
        assert(items_of(t).to_multiset().insert(p.1).insert(s.last().1) =~= items_of(
            t,
        ).to_multiset().insert(s.last().1).insert(p.1));
    } else {
        assert(items_of(s.push(p)) =~= items_of(s).push(p.1));
    }
}

/// Sorting by key only reorders: the same items, as often each.
pub proof fn lemma_sort_by_key_permutes<L>(s: Seq<(u64, L)>)
    ensures
        items_of(sort_by_key(s)).to_multiset() == items_of(s).to_multiset(),
    decreases s.len(),
{
    broadcast use vstd::seq_lib::group_to_multiset_ensures;

    if s.len() > 0 {
        let t = s.drop_last();
        lemma_sort_by_key_permutes(t);
        lemma_insert_items(sort_by_key(t), s.last());
        assert(items_of(s) =~= items_of(t).push(s.last().1));
    }
}

/// Returns `list` stably sorted by `keys`: the item at index `i` is placed
/// by the key `keys[i]`, and items with equal keys keep their input order.
pub fn order_by_keys<L: Copy>(keys: &[u64], list: &[L]) -> (r: Vec<L>)
    requires
        keys@.len() == list@.len(),
    ensures
        r@ == ordered_by_keys(keys@, list@),
        r@.to_multiset() == list@.to_multiset(),
{
    let n = list.len();
    let ghost all = keyed(keys@, list@);
    let mut sorted: Vec<(u64, L)> = Vec::new();
    let mut i: usize = 0;
    while i < n
        invariant
            i <= n,
            n == list@.len(),
            keys@.len() == n,
            all == keyed(keys@, list@),
            sorted@ == sort_by_key(all.take(i as int)),
        decreases n - i,
    {
        let p = (keys[i], list[i]);
        let mut j: usize = sorted.len();
        while j > 0
            invariant
                j <= sorted@.len(),
                forall|m: int| j <= m < sorted@.len() ==> p.0 < #[trigger] sorted@[m].0,
            ensures
                j <= sorted@.len(),
                forall|m: int| j <= m < sorted@.len() ==> p.0 < #[trigger] sorted@[m].0,
                j == 0 || sorted@[j - 1].0 <= p.0,
            decreases j,
        {
            if sorted[j - 1].0 <= p.0 {
                break;
            }
            j = j - 1;
        }
        proof {
            lemma_insert_at(sorted@, p, j as int);
            assert(all.take(i + 1).drop_last() =~= all.take(i as int));
            assert(all.take(i + 1).last() == p);
        }
        sorted.insert(j, p);
        i = i + 1;
    }
    proof {
        broadcast use vstd::seq_lib::group_to_multiset_ensures;

        assert(all.take(n as int) =~= all);
        lemma_sort_by_key_permutes(all);
        assert(items_of(sorted@).to_multiset().len() == items_of(all).to_multiset().len());
    }
    let mut r: Vec<L> = Vec::new();
    let mut k: usize = 0;
    while k < n
        invariant
            k <= n,
            sorted@.len() == n,
            r@ =~= items_of(sorted@).take(k as int),
        decreases n - k,
    {
        r.push(sorted[k].1);
        k = k + 1;
    }
    proof {
        assert(items_of(sorted@).take(n as int) =~= items_of(sorted@));
        assert(items_of(all) =~= list@);
    }
    r
}

} // verus!
