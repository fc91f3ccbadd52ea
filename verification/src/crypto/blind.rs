//! Blind signatures: a signer signs a message without seeing it.
use crate::crypto::backend::{
    g1_at, g1_in_group, g1_times, g2_at, group_order, group_order_large, reduced,
};
use crate::crypto::common::PP;
use crate::crypto::multisig;
use crate::crypto::multisig::{is_verdict, message_point, signature_is_accepted, signed_with};
use crate::crypto::wrapper::{is_drawn, Fr, G1};
use vstd::arithmetic::div_mod::lemma_mul_mod_noop_right;
use vstd::prelude::*;

verus! {

/// A message hidden for the signer.
pub struct BlindedMessage {
    /// The point to sign.
    pub point: G1,
    /// The blinding scalar, which unblinding needs.
    pub r: Fr,
}

/// Whether `q` is `k` times `p`, where `p` is in the first group.
pub open spec fn scaled(p: Seq<u64>, k: int, q: Seq<u64>) -> bool {
    forall|a: int| #[trigger] g1_at(p, a) ==> g1_at(q, a * k)
}

impl BlindedMessage {
    /// Whether this hides the given message.
    pub open spec fn hides(self, msg: Seq<u8>) -> bool {
        &&& self.point@ == g1_times(message_point(msg), self.r@)
        &&& g1_in_group(message_point(msg))
        &&& scaled(message_point(msg), self.r@, self.point@)
    }
}

/// Hides a message with a random scalar.
pub fn blind(msg: &[u8]) -> (res: BlindedMessage)
    ensures
        res.hides(msg@),
        is_drawn(res.r@),
{
    blind_with(msg, Fr::random())
}

/// Hides a message with the given scalar.
pub fn blind_with(msg: &[u8], r: Fr) -> (res: BlindedMessage)
    ensures
        res.r == r,
        res.hides(msg@),
{
    let h_m = multisig::hash_to_g1(msg);
    let point = h_m * r;
    BlindedMessage { point, r }
}

/// Signs a hidden message.
pub fn sign_blinded(sk: Fr, blinded_point: G1) -> (res: G1)
    ensures
        res@ == g1_times(blinded_point@, sk@),
        scaled(blinded_point@, sk@, res@),
{
    blinded_point * sk
}

/// Takes the blinding off a signature: the signature times the inverse of the blinding scalar.
pub fn unblind(blinded_sig: G1, r: Fr) -> (res: G1)
    ensures
        exists|k: int|
            {
                &&& 0 <= k < group_order()
                &&& if r@ == 0 {
                    k == 0
                } else {
                    reduced(r@ * k) == 1
                }
                &&& #[trigger] g1_times(blinded_sig@, k) == res@
                &&& scaled(blinded_sig@, k, res@)
            },
{
    let r_inv = r.inverse();
    let res = blinded_sig * r_inv;
    assert(g1_times(blinded_sig@, r_inv@) == res@);
    res
}

/// What blinding, signing and unblinding give is the plain signature of the message under the key of
/// the signer, unless the blinding scalar is zero.
pub proof fn unblinded_is_signature(
    msg: Seq<u8>,
    blinded: BlindedMessage,
    x: int,
    blinded_sig: Seq<u64>,
    k: int,
    sigma: Seq<u64>,
)
    requires
        blinded.hides(msg),
        scaled(blinded.point@, x, blinded_sig),
        reduced(blinded.r@ * k) == 1,
        scaled(blinded_sig, k, sigma),
    ensures
        signed_with(sigma, x, msg),
{
    let r = blinded.r@;
    assert forall|m: int| #[trigger] g1_at(message_point(msg), m) implies g1_at(sigma, m * x) by {
        assert(g1_at(blinded.point@, m * r));
        assert(g1_at(blinded_sig, m * r * x));
        assert(g1_at(sigma, m * r * x * k));
        assert(m * r * x * k == (m * x) * (r * k)) by (nonlinear_arith);
        let n = group_order();
        group_order_large();
        lemma_mul_mod_noop_right(m * x, r * k, n);
        assert((m * x) * 1 == m * x);
    }
}

/// A blindly signed message is accepted under the public key of the signer.
pub proof fn unblinded_is_accepted(
    msg: Seq<u8>,
    blinded: BlindedMessage,
    x: int,
    pk: Seq<u8>,
    blinded_sig: Seq<u64>,
    k: int,
    sigma: Seq<u64>,
    pp: PP,
    accepted: bool,
)
    requires
        pp.standard(),
        g2_at(pk, x),
        blinded.hides(msg),
        scaled(blinded.point@, x, blinded_sig),
        reduced(blinded.r@ * k) == 1,
        scaled(blinded_sig, k, sigma),
        is_verdict(accepted, sigma, pk, msg, pp),
    ensures
        accepted,
{
    unblinded_is_signature(msg, blinded, x, blinded_sig, k, sigma);
    signature_is_accepted(sigma, x, pk, msg, pp, accepted);
}

} // verus!
