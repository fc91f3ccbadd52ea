//! Pedersen commitments: a value hidden by a blinding scalar.
use crate::crypto::backend::{
    g1_at, g1_negation, g1_sum, g1_times, group_order, group_order_large, reduced,
};
use crate::crypto::common::PP;
use crate::crypto::wrapper::{Fr, G1};
use vstd::arithmetic::div_mod::{lemma_add_mod_noop, lemma_mul_mod_noop_right};
use vstd::arithmetic::mul::{lemma_mul_is_distributive_add, lemma_mul_is_distributive_sub};
use vstd::prelude::*;

verus! {

/// The commitment to `value` that `r` hides: the two generators, each as often as the scalar that
/// goes with it, added up.
pub open spec fn commitment_to(value: int, r: int, pp: PP) -> Seq<u64> {
    g1_sum(g1_times(pp.g1@, value), g1_times(pp.h@, r))
}

/// Whether `c` is a commitment to `value` that `r` hides: as often the generator of the first group
/// as `value` times the one generator and `r` times the other make together.
pub open spec fn opens(c: Seq<u64>, value: int, r: int, pp: PP) -> bool {
    &&& pp.in_group()
    &&& forall|g: int, h: int|
        #[trigger] g1_at(pp.g1@, g) && #[trigger] g1_at(pp.h@, h) ==> g1_at(
            c,
            g * value + h * r,
        )
}

/// Commits to `value` with the blinding scalar `r`.
pub fn commit(value: u64, r: Fr, pp: &PP) -> (res: G1)
    ensures
        res@ == commitment_to(value as int, r@, *pp),
        pp.in_group() ==> opens(res@, value as int, r@, *pp),
{
    let m = Fr::from_u64(value);
    (pp.g1 * m) + (pp.h * r)
}

/// Whether `c` is the sum of two commitments: the points added, and so a commitment to the sum of the
/// values that the sum of the blinding scalars hides.
pub open spec fn is_sum(c: Seq<u64>, c1: Seq<u64>, c2: Seq<u64>) -> bool {
    &&& c == g1_sum(c1, c2)
    &&& forall|v1: int, r1: int, v2: int, r2: int, pp: PP|
        #[trigger] opens(c1, v1, r1, pp) && #[trigger] opens(c2, v2, r2, pp) ==> opens(
            c,
            v1 + v2,
            r1 + r2,
            pp,
        )
    &&& forall|a: int, b: int|
        #[trigger] g1_at(c1, a) && #[trigger] g1_at(c2, b) ==> g1_at(c, a + b)
}

/// Whether `c` is the difference of two commitments: the points subtracted, and so a commitment to
/// the difference of the values that the difference of the blinding scalars hides.
pub open spec fn is_difference(c: Seq<u64>, c1: Seq<u64>, c2: Seq<u64>) -> bool {
    &&& c == g1_sum(c1, g1_negation(c2))
    &&& forall|v1: int, r1: int, v2: int, r2: int, pp: PP|
        #[trigger] opens(c1, v1, r1, pp) && #[trigger] opens(c2, v2, r2, pp) ==> opens(
            c,
            v1 - v2,
            r1 - r2,
            pp,
        )
    &&& forall|a: int, b: int|
        #[trigger] g1_at(c1, a) && #[trigger] g1_at(c2, b) ==> g1_at(c, a - b)
}

/// Adds two commitments: the sum is a commitment to the sum of the values, hidden by the sum of the
/// blinding scalars.
pub fn homomorphic_add(c1: G1, c2: G1) -> (res: G1)
    ensures
        is_sum(res@, c1@, c2@),
{
    let res = c1 + c2;
    assert forall|v1: int, r1: int, v2: int, r2: int, pp: PP|
        #[trigger] opens(c1@, v1, r1, pp) && #[trigger] opens(c2@, v2, r2, pp) implies opens(
        res@,
        v1 + v2,
        r1 + r2,
        pp,
    ) by {
        assert forall|g: int, h: int|
            #[trigger] g1_at(pp.g1@, g) && #[trigger] g1_at(pp.h@, h) implies g1_at(
            res@,
            g * (v1 + v2) + h * (r1 + r2),
        ) by {
            assert(g1_at(c1@, g * v1 + h * r1));
            assert(g1_at(c2@, g * v2 + h * r2));
            lemma_mul_is_distributive_add(g, v1, v2);
            lemma_mul_is_distributive_add(h, r1, r2);
            assert((g * v1 + h * r1) + (g * v2 + h * r2) == g * (v1 + v2) + h * (r1 + r2));
        }
    }
    res
}

/// Subtracts a commitment from another: the difference is a commitment to the difference of the
/// values, hidden by the difference of the blinding scalars.
pub fn homomorphic_sub(c1: G1, c2: G1) -> (res: G1)
    ensures
        is_difference(res@, c1@, c2@),
{
    let res = c1 - c2;
    assert forall|v1: int, r1: int, v2: int, r2: int, pp: PP|
        #[trigger] opens(c1@, v1, r1, pp) && #[trigger] opens(c2@, v2, r2, pp) implies opens(
        res@,
        v1 - v2,
        r1 - r2,
        pp,
    ) by {
        assert forall|g: int, h: int|
            #[trigger] g1_at(pp.g1@, g) && #[trigger] g1_at(pp.h@, h) implies g1_at(
            res@,
            g * (v1 - v2) + h * (r1 - r2),
        ) by {
            assert(g1_at(c1@, g * v1 + h * r1));
            assert(g1_at(c2@, g * v2 + h * r2));
            lemma_mul_is_distributive_sub(g, v1, v2);
            lemma_mul_is_distributive_sub(h, r1, r2);
            assert((g * v1 + h * r1) - (g * v2 + h * r2) == g * (v1 - v2) + h * (r1 - r2));
        }
    }
    res
}

/// Factors that are equal modulo the group order give one multiple of a generator.
proof fn combination_reduced(g: int, v: int, w: int, h: int, r: int, s: int)
    requires
        reduced(v) == reduced(w),
        reduced(r) == reduced(s),
    ensures
        reduced(g * v + h * r) == reduced(g * w + h * s),
{
    let m = group_order();
    group_order_large();
    lemma_mul_mod_noop_right(g, v, m);
    lemma_mul_mod_noop_right(g, w, m);
    lemma_mul_mod_noop_right(h, r, m);
    lemma_mul_mod_noop_right(h, s, m);
    lemma_add_mod_noop(g * v, h * r, m);
    lemma_add_mod_noop(g * w, h * s, m);
}

/// Value and blinding scalar count modulo the group order.
pub proof fn opening_is_modular(c: Seq<u64>, v: int, r: int, w: int, s: int, pp: PP)
    requires
        opens(c, v, r, pp),
        reduced(v) == reduced(w),
        reduced(r) == reduced(s),
    ensures
        opens(c, w, s, pp),
{
    assert forall|g: int, h: int|
        #[trigger] g1_at(pp.g1@, g) && #[trigger] g1_at(pp.h@, h) implies g1_at(
        c,
        g * w + h * s,
    ) by {
        combination_reduced(g, v, w, h, r, s);
    }
}

/// Value and blinding scalar determine a commitment: so the sum of two commitments is the commitment
/// to the sum of the values under the sum of the blinding scalars, and likewise the difference.
pub proof fn opening_determines_commitment(
    c: Seq<u64>,
    v: int,
    r: int,
    d: Seq<u64>,
    w: int,
    s: int,
    pp: PP,
)
    requires
        opens(c, v, r, pp),
        opens(d, w, s, pp),
        reduced(v) == reduced(w),
        reduced(r) == reduced(s),
    ensures
        c == d,
{
    let g = choose|g: int| g1_at(pp.g1@, g);
    let h = choose|h: int| g1_at(pp.h@, h);
    assert(g1_at(c, g * v + h * r));
    assert(g1_at(d, g * w + h * s));
    combination_reduced(g, v, w, h, r, s);
}

/// Subtracting a commitment that was added before gives the first one back.
pub proof fn subtraction_undoes_addition(
    c: Seq<u64>,
    d: Seq<u64>,
    sum: Seq<u64>,
    back: Seq<u64>,
    v: int,
    r: int,
    w: int,
    s: int,
    pp: PP,
)
    requires
        opens(c, v, r, pp),
        opens(d, w, s, pp),
        is_sum(sum, c, d),
        is_difference(back, sum, d),
    ensures
        back == c,
{
    assert(opens(sum, v + w, r + s, pp));
    assert(opens(back, v + w - w, r + s - s, pp));
    opening_determines_commitment(back, v, r, c, v, r, pp);
}

/// A payment moves its value from the payer to the payee and changes nothing else: what the two
/// commitments are to afterwards adds up to what they were to before.
pub proof fn payment_conserves_value(
    payer_before: Seq<u64>,
    payer_after: Seq<u64>,
    payee_before: Seq<u64>,
    payee_after: Seq<u64>,
    payment: Seq<u64>,
    v: int,
    r: int,
    w: int,
    s: int,
    m: int,
    t: int,
    pp: PP,
)
    requires
        opens(payer_before, v, r, pp),
        opens(payee_before, w, s, pp),
        opens(payment, m, t, pp),
        is_difference(payer_after, payer_before, payment),
        is_sum(payee_after, payee_before, payment),
    ensures
        opens(payer_after, v - m, r - t, pp),
        opens(payee_after, w + m, s + t, pp),
        (v - m) + (w + m) == v + w,
{
}

} // verus!
