//! Drawing sets of distinct indices without replacement.

use rand::rngs::ThreadRng;
use rand::Rng;
use std::collections::HashSet;
use vstd::prelude::*;
use vstd::set_lib::*;

verus! {

broadcast use vstd::std_specs::hash::group_hash_axioms;

/// `rand::rngs::ThreadRng`, the generator that every draw of this library
/// comes from. Nothing is known of its state.
#[verifier::external_type_specification]
#[verifier::external_body]
pub struct ExThreadRng(ThreadRng);

/// Calls `rand::Rng::random_range` on the inclusive range `low..=high`.
/// Trusted: the value lies in the range. The call panics on an empty
/// range, which `low <= high` rules out.
#[verifier::external_body]
pub(crate) fn draw_in_range(rng: &mut ThreadRng, low: usize, high: usize) -> (drawn: usize)
    requires
        low <= high,
    ensures
        low <= drawn <= high,
{
    rng.random_range(low..=high)
}

/// The indices below `n`.
pub open spec fn indices_below(n: nat) -> Set<usize> {
    Set::new(|x: usize| x < n)
}

/// `s` is a sample of `size` distinct indices, each below `max`.
pub open spec fn is_sample(s: Set<usize>, size: nat, max: nat) -> bool {
    &&& s.finite()
    &&& s.len() == size
    &&& s.subset_of(indices_below(max))
}

/// There are exactly `n` indices below `n`.
pub proof fn lemma_indices_below_len(n: nat)
    requires
        n <= usize::MAX + 1,
    ensures
        indices_below(n).finite(),
        indices_below(n).len() == n,
    decreases n,
{
    if n == 0 {
        assert(indices_below(0) =~= Set::<usize>::empty());
    } else {
        let m = (n - 1) as nat;
        lemma_indices_below_len(m);
        assert(indices_below(n) =~= indices_below(m).insert(m as usize));
    }
}

/// A sample never holds more indices than there are to choose from.
pub proof fn lemma_sample_fits(s: Set<usize>, size: nat, max: nat)
    requires
        is_sample(s, size, max),
        max <= usize::MAX + 1,
    ensures
        size <= max,
{
    lemma_indices_below_len(max);
    lemma_len_subset(s, indices_below(max));
}

/// Tops `set` up to `size` indices by adding, in increasing order, the
/// smallest indices it does not hold yet. Nothing is removed, and nothing
/// is added once the size is reached.
pub fn fill_sample(set: &mut HashSet<usize>, size: usize, max: usize)
    requires
        old(set)@.finite(),
        old(set)@.subset_of(indices_below(max as nat)),
        old(set)@.len() <= size <= max,
    ensures
        is_sample(final(set)@, size as nat, max as nat),
        old(set)@.subset_of(final(set)@),
        forall|x: usize, y: usize|
            final(set)@.contains(x) && !old(set)@.contains(x) && y < x
                ==> final(set)@.contains(y),
{
    let mut next: usize = 0;
    while set.len() < size
        invariant
            set@.finite(),
            set@.subset_of(indices_below(max as nat)),
            set@.len() <= size <= max,
            next <= max,
            old(set)@.subset_of(set@),
            indices_below(next as nat).subset_of(set@),
            forall|x: usize| set@.contains(x) && !old(set)@.contains(x) ==> x < next,
        decreases max - next,
    {
        proof {
            if next == max {
                lemma_indices_below_len(max as nat);
                lemma_len_subset(indices_below(max as nat), set@);
            }
        }
        set.insert(next);
        next += 1;
    }
}

/// Draws `size` distinct indices below `max` by rejection: an index is
/// drawn uniformly from `0..max` and added to the set, again and again,
/// until the set holds `size` indices. The set has no order.
///
/// The number of draws is capped at `u64::MAX` so that the call always
/// returns; a set still short when the cap is reached is topped up by
/// [`fill_sample`].
pub fn random_sample(rng: &mut ThreadRng, size: usize, max: usize) -> (set: HashSet<usize>)
    requires
        size <= max,
    ensures
        is_sample(set@, size as nat, max as nat),
{
    let mut set: HashSet<usize> = HashSet::new();
    let mut draws_left: u64 = u64::MAX;
    while set.len() < size && draws_left > 0
        invariant
            set@.finite(),
            set@.subset_of(indices_below(max as nat)),
            set@.len() <= size <= max,
        decreases draws_left,
    {
        let drawn = draw_in_range(rng, 0, max - 1);
        set.insert(drawn);
        draws_left -= 1;
    }
    fill_sample(&mut set, size, max);
    set
}

} // verus!
