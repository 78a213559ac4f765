//! Weight arithmetic for the accounting protocol: powers of two, and the sum
//! of the weights that a ledger of live handles records.

use vstd::prelude::*;

verus! {

/// Weight held by the one handle `create` returns, and the size every
/// withdrawal refills a handle to. A power of two, so that halving on
/// duplication is lossless until a handle is down to a single unit.
pub const INITIAL_WEIGHT: usize = 65536;

/// Two to the power `e`.
pub open spec fn pow2(e: nat) -> nat
    decreases e,
{
    if e == 0 {
        1
    } else {
        2 * pow2((e - 1) as nat)
    }
}

/// `w` is an exact power of two.
pub open spec fn is_pow2(w: nat) -> bool {
    exists|e: nat| w == pow2(e)
}

/// The shape every live handle's local weight keeps: an exact power of two
/// between one unit and one full block.
pub open spec fn valid_weight(w: nat) -> bool {
    &&& 1 <= w <= INITIAL_WEIGHT
    &&& is_pow2(w)
}

/// One full block of weight is a power of two.
pub proof fn lemma_initial_weight_pow2()
    ensures
        pow2(16) == INITIAL_WEIGHT,
        valid_weight(INITIAL_WEIGHT as nat),
{
    assert(pow2(16) == 65536) by {
        reveal_with_fuel(pow2, 17);
    }
}

/// A weight above one unit halves losslessly into another valid weight.
pub proof fn lemma_halve_weight(w: nat)
    requires
        valid_weight(w),
        w > 1,
    ensures
        valid_weight(w / 2),
        w == 2 * (w / 2),
{
    let e = choose|e: nat| w == pow2(e);
    assert(e > 0) by {
        if e == 0 {
            assert(w == 1);
        }
    }
    assert(w == 2 * pow2((e - 1) as nat));
    assert(w / 2 == pow2((e - 1) as nat)) by (nonlinear_arith)
        requires
            w == 2 * pow2((e - 1) as nat),
    ;
}

/// Total weight the ledger `m` records under ids below `n`.
pub open spec fn weight_sum(m: Map<nat, nat>, n: nat) -> nat
    decreases n,
{
    if n == 0 {
        0
    } else {
        weight_sum(m, (n - 1) as nat) + if m.contains_key((n - 1) as nat) {
            m[(n - 1) as nat]
        } else {
            0
        }
    }
}

/// An id at or above the bound contributes nothing: recording it there leaves
/// the sum alone.
pub proof fn lemma_weight_sum_insert_above(m: Map<nat, nat>, n: nat, k: nat, v: nat)
    requires
        k >= n,
    ensures
        weight_sum(m.insert(k, v), n) == weight_sum(m, n),
    decreases n,
{
    if n > 0 {
        lemma_weight_sum_insert_above(m, (n - 1) as nat, k, v);
    }
}

/// Recording an id below the bound moves the sum by the difference between the
/// new weight and whatever the ledger held for that id before.
pub proof fn lemma_weight_sum_insert(m: Map<nat, nat>, n: nat, k: nat, v: nat)
    requires
        k < n,
    ensures
        weight_sum(m.insert(k, v), n) == weight_sum(m, n) + v - if m.contains_key(k) {
            m[k]
        } else {
            0
        },
    decreases n,
{
    if k == n - 1 {
        lemma_weight_sum_insert_above(m, (n - 1) as nat, k, v);
    } else {
        lemma_weight_sum_insert(m, (n - 1) as nat, k, v);
    }
}

/// Striking an id below the bound takes exactly its weight out of the sum.
pub proof fn lemma_weight_sum_remove(m: Map<nat, nat>, n: nat, k: nat)
    requires
        k < n,
        m.contains_key(k),
    ensures
        weight_sum(m.remove(k), n) == weight_sum(m, n) - m[k],
    decreases n,
{
    if k == n - 1 {
        assert(weight_sum(m.remove(k), (n - 1) as nat) == weight_sum(m, (n - 1) as nat)) by {
            lemma_weight_sum_remove_above(m, (n - 1) as nat, k);
        }
    } else {
        lemma_weight_sum_remove(m, (n - 1) as nat, k);
    }
}

/// Striking an id at or above the bound leaves the sum alone.
pub proof fn lemma_weight_sum_remove_above(m: Map<nat, nat>, n: nat, k: nat)
    requires
        k >= n,
    ensures
        weight_sum(m.remove(k), n) == weight_sum(m, n),
    decreases n,
{
    if n > 0 {
        lemma_weight_sum_remove_above(m, (n - 1) as nat, k);
    }
}

/// No single recorded id holds more than the whole sum.
pub proof fn lemma_weight_sum_member_bound(m: Map<nat, nat>, n: nat, k: nat)
    requires
        k < n,
        m.contains_key(k),
    ensures
        m[k] <= weight_sum(m, n),
    decreases n,
{
    if k < n - 1 {
        lemma_weight_sum_member_bound(m, (n - 1) as nat, k);
    }
}

/// A ledger with no id below the bound sums to zero.
pub proof fn lemma_weight_sum_no_keys(m: Map<nat, nat>, n: nat)
    requires
        forall|k: nat| k < n ==> !m.contains_key(k),
    ensures
        weight_sum(m, n) == 0,
    decreases n,
{
    if n > 0 {
        lemma_weight_sum_no_keys(m, (n - 1) as nat);
    }
}

/// For a ledger of positive weights whose ids all lie below the bound, the sum
/// is zero exactly when the ledger records nothing at all.
pub proof fn lemma_weight_sum_zero_iff_empty(m: Map<nat, nat>, n: nat)
    requires
        forall|k: nat| m.contains_key(k) ==> #[trigger] m[k] >= 1,
        forall|k: nat| #[trigger] m.contains_key(k) ==> k < n,
    ensures
        (weight_sum(m, n) == 0) <==> (forall|k: nat| !m.contains_key(k)),
{
    if forall|k: nat| !m.contains_key(k) {
        lemma_weight_sum_no_keys(m, n);
    }
    if weight_sum(m, n) == 0 {
        assert forall|k: nat| !m.contains_key(k) by {
            if m.contains_key(k) {
                lemma_weight_sum_member_bound(m, n, k);
            }
        }
    }
}

} // verus!
