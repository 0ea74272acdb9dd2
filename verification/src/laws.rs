//! The engine's algebraic laws, proved once over the model functions that
//! the operations' contracts are stated with.
//!
//! Each law here is the model-level statement of a guarantee a caller can
//! rely on across calls: what `set_moles` then `get_moles` yields, how
//! `merge` composes totals, that `remove` round-trips, and how the registry
//! recycles handles. The per-operation guarantees that need no composition
//! (immutability making mutators no-ops, for instance) are stated directly
//! in the operations' `ensures` clauses.

use vstd::prelude::*;

use crate::constants::{QUANTITY_CAP, SCALE};
use crate::gas::{free_after_register, register_pick};
use crate::gas_mixture::{
    depleted_moles, lemma_mole_le_sum_to, lemma_scaled_fraction_le, lemma_sum_to_extends,
    lemma_sum_to_nonneg, lemma_sum_to_pointwise_add, max_i, merged_moles, mole, ratio_depleted_moles,
    ratio_removed_moles, removed_moles, set_moles_seq, sum_moles, sum_to, wf_moles,
};

verus! {

/// Writing a species' moles and reading the same species back yields
/// exactly the written value.
pub proof fn lemma_set_then_get_moles(s: Seq<u64>, i: int, v: u64)
    requires
        0 <= i,
    ensures
        mole(set_moles_seq(s, i, v), i) == v,
{
}

/// Pouring one mixture into another is exactly additive in total moles,
/// whenever the combined total is representable.
pub proof fn lemma_merge_total_moles(a: Seq<u64>, b: Seq<u64>)
    requires
        wf_moles(a),
        wf_moles(b),
        sum_moles(a) + sum_moles(b) <= QUANTITY_CAP,
    ensures
        sum_moles(merged_moles(a, b)) == sum_moles(a) + sum_moles(b),
{
    let n = max_i(a.len() as int, b.len() as int);
    let m = merged_moles(a, b);
    lemma_sum_to_nonneg(a, a.len() as int);
    lemma_sum_to_nonneg(b, b.len() as int);
    assert forall|i: int| 0 <= i < n implies #[trigger] mole(m, i) == mole(a, i) + mole(b, i) by {
        if 0 <= i < a.len() {
            lemma_mole_le_sum_to(a, i, a.len() as int);
        }
        if 0 <= i < b.len() {
            lemma_mole_le_sum_to(b, i, b.len() as int);
        }
        lemma_sum_to_nonneg(a, a.len() as int);
        lemma_sum_to_nonneg(b, b.len() as int);
    }
    lemma_sum_to_pointwise_add(a, b, m, n);
    lemma_sum_to_extends(a, n);
    lemma_sum_to_extends(b, n);
}

/// Removing an amount and merging the removed mixture back into the
/// depleted one restores the original mole sequence, and hence the
/// original total, exactly — whenever the amount does not exceed what the
/// mixture holds.
pub proof fn lemma_remove_merge_round_trip(s: Seq<u64>, amount: int)
    requires
        wf_moles(s),
        0 <= amount <= sum_moles(s),
    ensures
        merged_moles(depleted_moles(s, amount), removed_moles(s, amount)) == s,
        sum_moles(merged_moles(depleted_moles(s, amount), removed_moles(s, amount))) == sum_moles(
            s,
        ),
{
    let rem = removed_moles(s, amount);
    let dep = depleted_moles(s, amount);
    assert forall|i: int| 0 <= i < s.len() implies #[trigger] rem[i] <= s[i] by {
        if sum_moles(s) != 0 {
            lemma_sum_to_nonneg(s, s.len() as int);
            lemma_scaled_fraction_le(s[i], amount, sum_moles(s));
        }
    }
    assert forall|i: int| 0 <= i < s.len() implies #[trigger] merged_moles(dep, rem)[i]
        == s[i] by {
        assert(mole(s, i) == s[i]);
        assert(dep[i] + rem[i] == s[i]);
    }
    assert(merged_moles(dep, rem) =~= s);
}

/// Removing a zero fraction takes nothing: the removed mixture is empty
/// and the depleted sequence is the source unchanged.
pub proof fn lemma_remove_ratio_zero(s: Seq<u64>)
    requires
        wf_moles(s),
    ensures
        forall|i: int| #[trigger] mole(ratio_removed_moles(s, 0), i) == 0,
        sum_moles(ratio_removed_moles(s, 0)) == 0,
        ratio_depleted_moles(s, 0) == s,
{
    assert forall|i: int| #[trigger] mole(ratio_removed_moles(s, 0), i) == 0 by {
        if 0 <= i < s.len() {
            assert(s[i] * 0 == 0);
        }
    }
    lemma_sum_to_all_zero(ratio_removed_moles(s, 0), s.len() as int);
    assert(ratio_depleted_moles(s, 0) =~= s);
}

/// Removing the whole fraction takes everything: the removed mixture holds
/// exactly the source's moles and the depleted source is empty.
pub proof fn lemma_remove_ratio_all(s: Seq<u64>)
    requires
        wf_moles(s),
    ensures
        ratio_removed_moles(s, SCALE as int) == s,
        forall|i: int| #[trigger] mole(ratio_depleted_moles(s, SCALE as int), i) == 0,
        sum_moles(ratio_depleted_moles(s, SCALE as int)) == 0,
{
    assert forall|i: int| 0 <= i < s.len() implies #[trigger] ratio_removed_moles(
        s,
        SCALE as int,
    )[i] == s[i] by {
        vstd::arithmetic::div_mod::lemma_div_by_multiple(s[i] as int, SCALE as int);
    }
    assert(ratio_removed_moles(s, SCALE as int) =~= s);
    assert forall|i: int| #[trigger] mole(ratio_depleted_moles(s, SCALE as int), i) == 0 by {
        if 0 <= i < s.len() {
            assert(ratio_removed_moles(s, SCALE as int)[i] == s[i]);
        }
    }
    lemma_sum_to_all_zero(ratio_depleted_moles(s, SCALE as int), s.len() as int);
}

/// A sequence of zeroes sums to zero.
proof fn lemma_sum_to_all_zero(s: Seq<u64>, n: int)
    requires
        forall|i: int| #[trigger] mole(s, i) == 0,
    ensures
        sum_to(s, n) == 0,
    decreases n,
{
    if n > 0 {
        lemma_sum_to_all_zero(s, n - 1);
    }
}

/// Registering, unregistering the returned handle, and registering again
/// picks the very same slot; the registration contract then guarantees the
/// reused slot holds a fresh empty mixture with no residue.
pub proof fn lemma_handle_reuse(pool_len: int, free: Seq<usize>)
    requires
        0 <= pool_len < usize::MAX,
        forall|i: int| 0 <= i < free.len() ==> (#[trigger] free[i]) < pool_len,
    ensures
        ({
            let first_pick = register_pick(pool_len, free);
            let pool_len_after = if free.len() == 0 {
                pool_len + 1
            } else {
                pool_len
            };
            let free_after_unregister = free_after_register(free).push(first_pick as usize);
            register_pick(pool_len_after, free_after_unregister) == first_pick
        }),
{
    let first_pick = register_pick(pool_len, free);
    let free_after_unregister = free_after_register(free).push(first_pick as usize);
    assert(free_after_unregister.last() == first_pick as usize);
}

} // verus!
