//! Signatures that can be added up: shares in the first group, keys in the second.
use crate::crypto::backend::{
    g1_at, g1_hash, g1_in_group, g1_sum, g1_times, g2_at, g2_generator, g2_sum, g2_times,
    group_order, group_order_large, gt_at, has_full_order, multiple, pairing_value, reduced,
};
use crate::crypto::common::PP;
use crate::crypto::wrapper::{fp12_eq, is_drawn, pairing, Fr, G1, G2};
use vstd::arithmetic::div_mod::{lemma_mod_equivalence, lemma_mul_mod_noop_right, lemma_small_mod};
use vstd::arithmetic::mul::lemma_mul_is_distributive_add;
use vstd::prelude::*;

verus! {

/// A secret key and the public key that goes with it.
#[derive(Clone, Copy)]
pub struct KeyPair {
    pub sk: Fr,
    pub pk: G2,
}

impl KeyPair {
    /// Whether the public key is the generator of the parameters as often as the secret key says.
    pub open spec fn belongs_to(self, pp: PP) -> bool {
        &&& self.pk@ == g2_times(pp.g2@, self.sk@)
        &&& pp.g2@ == g2_generator() && g2_at(pp.g2@, 1) ==> g2_at(self.pk@, self.sk@)
    }

    /// A key pair drawn at random.
    pub fn generate(pp: &PP) -> (res: KeyPair)
        ensures
            res.belongs_to(*pp),
            is_drawn(res.sk@),
    {
        KeyPair::from_secret(Fr::random(), pp)
    }

    /// The key pair of a secret key.
    pub fn from_secret(sk: Fr, pp: &PP) -> (res: KeyPair)
        ensures
            res.sk == sk,
            res.belongs_to(*pp),
    {
        let pk = pp.g2 * sk;
        assert(1 * sk@ == sk@);
        KeyPair { sk, pk }
    }
}

/// The domain separation tag of the signatures.
pub open spec fn signature_domain() -> Seq<u8> {
    vstd::utf8::encode_utf8("MBPChannel-V1-SIG-G1"@)
}

/// The point of the first group that stands for a message.
pub open spec fn message_point(msg: Seq<u8>) -> Seq<u64> {
    g1_hash(msg, signature_domain())
}

/// Whether `sigma` is the signature of a message under the secret key `x`: the point of the message,
/// `x` times.
pub open spec fn signed_with(sigma: Seq<u64>, x: int, msg: Seq<u8>) -> bool {
    &&& g1_in_group(message_point(msg))
    &&& forall|m: int| #[trigger] g1_at(message_point(msg), m) ==> g1_at(sigma, m * x)
}

/// Hashes a message to the first group.
pub fn hash_to_g1(msg: &[u8]) -> (res: G1)
    ensures
        res@ == message_point(msg@),
        g1_in_group(res@),
{
    G1::hash_to_curve(msg, "MBPChannel-V1-SIG-G1".as_bytes())
}

/// Signs a message.
pub fn sign(sk: Fr, msg: &[u8]) -> (res: G1)
    ensures
        res@ == g1_times(message_point(msg@), sk@),
        signed_with(res@, sk@, msg@),
        g1_in_group(res@),
{
    let h_tx = hash_to_g1(msg);
    let res = h_tx * sk;
    proof {
        let m = choose|m: int| g1_at(message_point(msg@), m);
        assert(g1_at(res@, m * sk@));
    }
    res
}

/// The points that a list holds.
pub open spec fn g1_points(list: Seq<G1>) -> Seq<Seq<u64>> {
    list.map_values(|p: G1| p@)
}

/// The points that a list holds.
pub open spec fn g2_points(list: Seq<G2>) -> Seq<Seq<u8>> {
    list.map_values(|p: G2| p@)
}

/// The points added up from the left.
pub open spec fn g1_total(points: Seq<Seq<u64>>) -> Seq<u64>
    decreases points.len(),
{
    if points.len() <= 1 {
        points[0]
    } else {
        g1_sum(g1_total(points.drop_last()), points.last())
    }
}

/// The points added up from the left.
pub open spec fn g2_total(points: Seq<Seq<u8>>) -> Seq<u8>
    decreases points.len(),
{
    if points.len() <= 1 {
        points[0]
    } else {
        g2_sum(g2_total(points.drop_last()), points.last())
    }
}

/// The sum of a list of integers.
pub open spec fn sum_of(xs: Seq<int>) -> int
    decreases xs.len(),
{
    if xs.len() == 0 {
        0
    } else {
        sum_of(xs.drop_last()) + xs.last()
    }
}

/// Whether every one of `sigs` is the signature of the message under the secret key at its place.
pub open spec fn all_signed_with(sigs: Seq<Seq<u64>>, xs: Seq<int>, msg: Seq<u8>) -> bool {
    &&& sigs.len() == xs.len()
    &&& forall|i: int| 0 <= i < sigs.len() ==> signed_with(#[trigger] sigs[i], xs[i], msg)
}

/// Whether every one of `pks` is the public key of the secret key at its place.
pub open spec fn all_keys_of(pks: Seq<Seq<u8>>, xs: Seq<int>) -> bool {
    &&& pks.len() == xs.len()
    &&& forall|i: int| 0 <= i < pks.len() ==> g2_at(#[trigger] pks[i], xs[i])
}

/// Whether `agg` is the sum of the signatures: the points added up, and for signatures of one message
/// its signature under the sum of their secret keys.
pub open spec fn adds_up_signatures(sigs: Seq<Seq<u64>>, agg: Seq<u64>) -> bool {
    &&& agg == g1_total(sigs)
    &&& forall|xs: Seq<int>, msg: Seq<u8>| #[trigger]
        all_signed_with(sigs, xs, msg) ==> signed_with(agg, sum_of(xs), msg)
}

/// Whether `agg` is the sum of the public keys: the points added up, and the public key of the sum of
/// the secret keys.
pub open spec fn adds_up_keys(pks: Seq<Seq<u8>>, agg: Seq<u8>) -> bool {
    &&& agg == g2_total(pks)
    &&& forall|xs: Seq<int>| #[trigger] all_keys_of(pks, xs) ==> g2_at(agg, sum_of(xs))
}

/// Whether `accepted` is what verification says of a signature: whether the pairing of the signature
/// with the generator is that of the message with the key; under the standard generator, for a
/// signature and a key in their groups, whether it is the signature under the secret key of the
/// public key. Neither the message nor the key is lost in the pairing, unless it is neutral.
pub open spec fn is_verdict(
    accepted: bool,
    sigma: Seq<u64>,
    cpk: Seq<u8>,
    msg: Seq<u8>,
    pp: PP,
) -> bool {
    &&& accepted == (pairing_value(pp.g2@, sigma) == pairing_value(cpk, message_point(msg)))
    &&& pp.g2@ == g2_generator() && g1_in_group(sigma) ==> forall|x: int| #[trigger]
        g2_at(cpk, x) ==> (accepted <==> signed_with(sigma, x, msg))
    &&& pp.g2@ == g2_generator() ==> forall|s: int, x: int, m: int|
        #[trigger] g1_at(sigma, s) && #[trigger] g2_at(cpk, x) && #[trigger] g1_at(
            message_point(msg),
            m,
        ) ==> (accepted <==> reduced(s) == reduced(m * x))
    &&& forall|x: int, m: int|
        #[trigger] g2_at(cpk, x) && #[trigger] g1_at(message_point(msg), m) && reduced(x) != 0
            && reduced(m) != 0 ==> has_full_order(pairing_value(cpk, message_point(msg)), m * x)
}

/// Adds signatures up. Signatures of one message add up to its signature under the sum of their
/// secret keys.
pub fn aggregate_signatures(sigs: Vec<G1>) -> (res: Result<G1, String>)
    ensures
        match res {
            Ok(agg) => sigs@.len() > 0 && adds_up_signatures(g1_points(sigs@), agg@),
            Err(e) => sigs@.len() == 0 && e@ == "Cannot aggregate empty signatures"@,
        },
{
    if sigs.is_empty() {
        return Err("Cannot aggregate empty signatures".to_owned());
    }
    let ghost points = g1_points(sigs@);
    let mut agg = sigs[0];
    let mut i: usize = 1;
    proof {
        let head = points.take(1);
        assert(head[0] == agg@);
        assert forall|xs: Seq<int>, msg: Seq<u8>| #[trigger]
            all_signed_with(head, xs, msg) implies signed_with(agg@, sum_of(xs), msg) by {
            assert(signed_with(head[0], xs[0], msg));
            assert(sum_of(xs.drop_last()) == 0);
            assert(sum_of(xs) == xs[0]);
        }
    }
    while i < sigs.len()
        invariant
            1 <= i <= sigs.len(),
            points == g1_points(sigs@),
            agg@ == g1_total(points.take(i as int)),
            forall|xs: Seq<int>, msg: Seq<u8>| #[trigger]
                all_signed_with(points.take(i as int), xs, msg) ==> signed_with(
                    agg@,
                    sum_of(xs),
                    msg,
                ),
        decreases sigs.len() - i,
    {
        let ghost before = agg;
        let ghost next = points.take(i + 1);
        agg = agg + sigs[i];
        proof {
            assert(next.drop_last() =~= points.take(i as int));
            assert(next.last() == sigs@[i as int]@);
            assert forall|xs: Seq<int>, msg: Seq<u8>| #[trigger]
                all_signed_with(next, xs, msg) implies signed_with(agg@, sum_of(xs), msg) by {
                let head = points.take(i as int);
                assert forall|j: int| 0 <= j < head.len() implies signed_with(
                    #[trigger] head[j],
                    xs.drop_last()[j],
                    msg,
                ) by {
                    assert(head[j] == next[j]);
                }
                assert(all_signed_with(head, xs.drop_last(), msg));
                assert(signed_with(next[i as int], xs[i as int], msg));
                let x = sum_of(xs.drop_last());
                let y = xs.last();
                assert forall|m: int| #[trigger] g1_at(message_point(msg), m) implies g1_at(
                    agg@,
                    m * sum_of(xs),
                ) by {
                    assert(g1_at(before@, m * x));
                    assert(g1_at(sigs@[i as int]@, m * y));
                    lemma_mul_is_distributive_add(m, x, y);
                }
            }
        }
        i += 1;
    }
    assert(points.take(i as int) =~= points);
    Ok(agg)
}

/// Adds public keys up. The sum is the public key of the sum of the secret keys.
pub fn aggregate_public_keys(pks: Vec<G2>) -> (res: Result<G2, String>)
    ensures
        match res {
            Ok(agg) => pks@.len() > 0 && adds_up_keys(g2_points(pks@), agg@),
            Err(e) => pks@.len() == 0 && e@ == "Cannot aggregate empty public keys"@,
        },
{
    if pks.is_empty() {
        return Err("Cannot aggregate empty public keys".to_owned());
    }
    let ghost points = g2_points(pks@);
    let mut agg_pk = pks[0];
    let mut i: usize = 1;
    proof {
        let head = points.take(1);
        assert(head[0] == agg_pk@);
        assert forall|xs: Seq<int>| #[trigger] all_keys_of(head, xs) implies g2_at(
            agg_pk@,
            sum_of(xs),
        ) by {
            assert(g2_at(head[0], xs[0]));
            assert(sum_of(xs.drop_last()) == 0);
            assert(sum_of(xs) == xs[0]);
        }
    }
    while i < pks.len()
        invariant
            1 <= i <= pks.len(),
            points == g2_points(pks@),
            agg_pk@ == g2_total(points.take(i as int)),
            forall|xs: Seq<int>| #[trigger] all_keys_of(points.take(i as int), xs) ==> g2_at(
                agg_pk@,
                sum_of(xs),
            ),
        decreases pks.len() - i,
    {
        let ghost before = agg_pk;
        let ghost next = points.take(i + 1);
        agg_pk = agg_pk + pks[i];
        proof {
            assert(next.drop_last() =~= points.take(i as int));
            assert(next.last() == pks@[i as int]@);
            assert forall|xs: Seq<int>| #[trigger] all_keys_of(next, xs) implies g2_at(
                agg_pk@,
                sum_of(xs),
            ) by {
                let head = points.take(i as int);
                assert forall|j: int| 0 <= j < head.len() implies g2_at(
                    #[trigger] head[j],
                    xs.drop_last()[j],
                ) by {
                    assert(head[j] == next[j]);
                }
                assert(all_keys_of(head, xs.drop_last()));
                assert(g2_at(next[i as int], xs[i as int]));
                assert(g2_at(before@, sum_of(xs.drop_last())));
            }
        }
        i += 1;
    }
    assert(points.take(i as int) =~= points);
    Ok(agg_pk)
}

/// Verifies a signature under a public key, or a sum of signatures under the sum of the public keys.
pub fn verify_aggregate(sigma: G1, cpk: G2, msg: &[u8], pp: &PP) -> (res: bool)
    ensures
        is_verdict(res, sigma@, cpk@, msg@, *pp),
{
    let h_tx = hash_to_g1(msg);
    let lhs = pairing(pp.g2, sigma);
    let rhs = pairing(cpk, h_tx);
    let res = fp12_eq(&lhs, &rhs);
    proof {
        assert forall|s: int, x: int, m: int|
            pp.g2@ == g2_generator() && #[trigger] g1_at(sigma@, s) && #[trigger] g2_at(cpk@, x)
                && #[trigger] g1_at(message_point(msg@), m) implies (res <==> reduced(s) == reduced(
            m * x,
        )) by {
            assert(lhs@ == gt_at(s));
        }
        if pp.g2@ == g2_generator() && g1_in_group(sigma@) {
            let s = choose|s: int| g1_at(sigma@, s);
            assert(lhs@ == gt_at(s));
            assert forall|x: int| #[trigger] g2_at(cpk@, x) implies (res <==> signed_with(
                sigma@,
                x,
                msg@,
            )) by {
                let m = choose|m: int| g1_at(message_point(msg@), m);
                assert(res <==> reduced(s) == reduced(m * x));
                if res {
                    assert forall|k: int| #[trigger] g1_at(message_point(msg@), k) implies g1_at(
                        sigma@,
                        k * x,
                    ) by {
                        assert(rhs@ == gt_at(s));
                        assert(reduced(s) == reduced(k * x));
                    }
                }
                if signed_with(sigma@, x, msg@) {
                    assert(g1_at(sigma@, m * x));
                    assert(lhs@ == gt_at(m * x));
                    assert(rhs@ == gt_at(m * x));
                }
            }
        }
    }
    res
}

/// A message has one signature under a secret key.
pub proof fn signature_is_unique(sigma: Seq<u64>, tau: Seq<u64>, x: int, msg: Seq<u8>)
    requires
        signed_with(sigma, x, msg),
        signed_with(tau, x, msg),
    ensures
        sigma == tau,
        g1_in_group(sigma),
{
    let m = choose|m: int| g1_at(message_point(msg), m);
    assert(g1_at(sigma, m * x));
    assert(g1_at(tau, m * x));
}

/// What is signed with a secret key is accepted under its public key.
pub proof fn signature_is_accepted(
    sigma: Seq<u64>,
    x: int,
    pk: Seq<u8>,
    msg: Seq<u8>,
    pp: PP,
    accepted: bool,
)
    requires
        pp.standard(),
        signed_with(sigma, x, msg),
        g2_at(pk, x),
        is_verdict(accepted, sigma, pk, msg, pp),
    ensures
        accepted,
{
    signature_is_unique(sigma, sigma, x, msg);
}

/// What is accepted under a public key was signed with its secret key, if it is in the group.
pub proof fn accepted_is_signature(
    sigma: Seq<u64>,
    x: int,
    pk: Seq<u8>,
    msg: Seq<u8>,
    pp: PP,
    accepted: bool,
)
    requires
        pp.standard(),
        g1_in_group(sigma),
        g2_at(pk, x),
        is_verdict(accepted, sigma, pk, msg, pp),
        accepted,
    ensures
        signed_with(sigma, x, msg),
{
}

/// The sum of the signatures of one message, each under its own key, is accepted under the sum of
/// the public keys.
pub proof fn aggregate_is_accepted(
    sigs: Seq<Seq<u64>>,
    sigma: Seq<u64>,
    pks: Seq<Seq<u8>>,
    cpk: Seq<u8>,
    xs: Seq<int>,
    msg: Seq<u8>,
    pp: PP,
    accepted: bool,
)
    requires
        pp.standard(),
        all_signed_with(sigs, xs, msg),
        all_keys_of(pks, xs),
        adds_up_signatures(sigs, sigma),
        adds_up_keys(pks, cpk),
        is_verdict(accepted, sigma, cpk, msg, pp),
    ensures
        accepted,
{
    signature_is_accepted(sigma, sum_of(xs), cpk, msg, pp, accepted);
}

/// Leaving one out of a list of integers takes it off their sum.
proof fn sum_without(xs: Seq<int>, j: int)
    requires
        0 <= j < xs.len(),
    ensures
        sum_of(xs.remove(j)) == sum_of(xs) - xs[j],
    decreases xs.len(),
{
    let rest = xs.remove(j);
    if j == xs.len() - 1 {
        assert(rest =~= xs.drop_last());
    } else {
        sum_without(xs.drop_last(), j);
        assert(rest.drop_last() =~= xs.drop_last().remove(j));
        assert(rest.last() == xs.last());
    }
}

/// The sum of the signatures of one message, each under its own key, is refused under a sum of the
/// public keys that lacks the one at place `j`. Left out are the secret key zero at that place, other
/// secret keys that add up to zero, and a message that hashes to the neutral point.
pub proof fn incomplete_sum_is_refused(
    sigs: Seq<Seq<u64>>,
    sigma: Seq<u64>,
    pks: Seq<Seq<u8>>,
    cpk: Seq<u8>,
    xs: Seq<int>,
    j: int,
    msg: Seq<u8>,
    pp: PP,
    accepted: bool,
)
    requires
        pp.standard(),
        0 <= j < xs.len(),
        all_signed_with(sigs, xs, msg),
        all_keys_of(pks, xs),
        adds_up_signatures(sigs, sigma),
        adds_up_keys(pks.remove(j), cpk),
        reduced(xs[j]) != 0,
        reduced(sum_of(xs.remove(j))) != 0,
        !g1_at(message_point(msg), 0),
        is_verdict(accepted, sigma, cpk, msg, pp),
    ensures
        !accepted,
{
    group_order_large();
    let n = group_order();
    let rest = sum_of(xs.remove(j));
    let left = xs[j];
    sum_without(xs, j);
    let others = pks.remove(j);
    assert forall|i: int| 0 <= i < others.len() implies g2_at(
        #[trigger] others[i],
        xs.remove(j)[i],
    ) by {
        if i < j {
            assert(g2_at(pks[i], xs[i]));
        } else {
            assert(g2_at(pks[i + 1], xs[i + 1]));
        }
    }
    assert(all_keys_of(others, xs.remove(j)));
    assert(signed_with(sigma, rest + left, msg));
    let m = choose|m: int| g1_at(message_point(msg), m);
    assert(g1_at(sigma, m * (rest + left)));
    assert(reduced(m) != 0) by {
        lemma_small_mod(0, n as nat);
    }
    assert(has_full_order(pairing_value(cpk, message_point(msg)), m * rest));
    if accepted {
        assert(m * (rest + left) - m * rest == m * left) by (nonlinear_arith);
        lemma_mod_equivalence(m * (rest + left), m * rest, n);
        assert((m * rest) * left == rest * (m * left)) by (nonlinear_arith);
        lemma_mul_mod_noop_right(rest, m * left, n);
        lemma_small_mod(0, n as nat);
        assert(multiple(m * rest, left) == 0);
    }
}

} // verus!
