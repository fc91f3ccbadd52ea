//! What the cryptography promises: each operation in terms of points and scalars that go into it and
//! come out of it.
use crate::crypto::backend::{
    drawn_bytes, g1_at, g1_compressed, g1_encodes_point, g1_generator, g1_hash, g1_in_group,
    g1_negation, g1_sum, g1_times, g2_at, g2_decodes, g2_generator, g2_negation, g2_sum, g2_times,
    group_order, pairing_value, reduced,
};
use crate::crypto::blind::{
    blind, blind_with, sign_blinded, unblind, unblinded_is_signature, BlindedMessage,
};
use crate::crypto::commitment::{
    commit, homomorphic_add, homomorphic_sub, opening_determines_commitment,
};
use crate::crypto::common::{PP, SharedParameters};
use crate::crypto::multisig::{
    aggregate_public_keys, aggregate_signatures, all_keys_of, all_signed_with, g1_points, g1_total,
    g2_points, g2_total, hash_to_g1, message_point, sign, signature_is_accepted,
    signature_is_unique, signed_with, sum_of, verify_aggregate, KeyPair,
};
use crate::crypto::wrapper::{fp12_eq, pairing, Fp12, Fr, G1, G2};
use crate::encoding::{be_value, hex_bytes, hex_decodes, hex_round_trip, hex_text, le_value};
use core::ops::{Add, Mul, Sub};
use vstd::prelude::*;

verus! {

/// The parameters are the generators of the two groups, and for blinding the generator of the first
/// group as often as the digest of the seed says.
pub proof fn parameters_are_generators(pp: PP)
    requires
        call_ensures(PP::new, (), pp),
    ensures
        pp.g1@ == g1_generator(),
        pp.g2@ == g2_generator(),
        pp.h@ == g1_times(
            g1_generator(),
            0x413eb74a5d5495d9176c8fe6340d5d59330e56568eae0695dc1da95ba8471f85int,
        ),
{
    reveal(group_order);
}

/// Whoever holds the parameters holds the same.
pub proof fn parameters_are_shared(pp: PP, shared: SharedParameters, held: &SharedParameters, got: PP)
    requires
        call_ensures(PP::new, (), pp),
        call_ensures(SharedParameters::new, (), shared),
        call_ensures(SharedParameters::get, (held,), got),
    ensures
        shared@.g1@ == pp.g1@,
        shared@.g2@ == pp.g2@,
        shared@.h@ == pp.h@,
        got == held@,
        got.g1@ == pp.g1@,
        got.g2@ == pp.g2@,
        got.h@ == pp.h@,
{
}

/// A commitment is the one generator as often as the value says and the other as often as the blinding
/// scalar says. Under the shared parameters it is the generator of the first group as often as the
/// value and the blinding scalar times the factor of the seed make together.
pub proof fn commitment_holds_value_and_blinding(value: u64, r: Fr, pp: &PP, res: G1)
    requires
        call_ensures(commit, (value, r, pp), res),
    ensures
        res@ == g1_sum(g1_times(pp.g1@, value as int), g1_times(pp.h@, r@)),
        pp.standard() && pp.seeded() && pp.in_group() ==> g1_at(
            res@,
            value + 0x413eb74a5d5495d9176c8fe6340d5d59330e56568eae0695dc1da95ba8471f85int * r@,
        ),
{
    if pp.standard() && pp.seeded() && pp.in_group() {
        assert(g1_at(pp.g1@, 1));
        assert(1 * value == value);
    }
}

/// Commitments add and subtract as points do: what is the generator `a` and `b` times becomes the
/// generator `a + b` and `a - b` times.
pub proof fn commitments_add_as_points(c1: G1, c2: G1, sum: G1, difference: G1, a: int, b: int)
    requires
        call_ensures(homomorphic_add, (c1, c2), sum),
        call_ensures(homomorphic_sub, (c1, c2), difference),
    ensures
        sum@ == g1_sum(c1@, c2@),
        difference@ == g1_sum(c1@, g1_negation(c2@)),
        g1_at(c1@, a) && g1_at(c2@, b) ==> g1_at(sum@, a + b) && g1_at(difference@, a - b),
{
}

/// The sum of two commitments is the commitment to the sum of the values under the sum of the blinding
/// scalars, and taking one of them off again gives the commitment to the other value.
pub proof fn commitments_are_homomorphic(
    v1: u64,
    r1: Fr,
    v2: u64,
    r2: Fr,
    v: u64,
    r: Fr,
    pp: &PP,
    c1: G1,
    c2: G1,
    c: G1,
    sum: G1,
    back: G1,
)
    requires
        pp.in_group(),
        call_ensures(commit, (v1, r1, pp), c1),
        call_ensures(commit, (v2, r2, pp), c2),
        call_ensures(commit, (v, r, pp), c),
        v1 + v2 == v,
        reduced(r1@ + r2@) == reduced(r@),
        call_ensures(homomorphic_add, (c1, c2), sum),
        call_ensures(homomorphic_sub, (sum, c2), back),
    ensures
        sum@ == c@,
        back@ == c1@,
{
    opening_determines_commitment(sum@, v1 + v2, r1@ + r2@, c@, v as int, r@, *pp);
    opening_determines_commitment(
        back@,
        v1 + v2 - v2,
        r1@ + r2@ - r2@,
        c1@,
        v1 as int,
        r1@,
        *pp,
    );
}

/// A message is hashed to the first group under the tag of the channel, and signed by taking the point
/// as often as the secret key says.
pub proof fn signature_is_multiple_of_hash(msg: &[u8], sk: Fr, point: G1, sigma: G1)
    requires
        call_ensures(hash_to_g1, (msg,), point),
        call_ensures(sign, (sk, msg), sigma),
    ensures
        point@ == g1_hash(msg@, vstd::utf8::encode_utf8("MBPChannel-V1-SIG-G1"@)),
        sigma@ == g1_times(g1_hash(msg@, vstd::utf8::encode_utf8("MBPChannel-V1-SIG-G1"@)), sk@),
        forall|m: int| #[trigger] g1_at(point@, m) ==> g1_at(sigma@, m * sk@),
        g1_in_group(point@),
        g1_in_group(sigma@),
{
}

/// A public key is the generator of the parameters as often as the secret key says.
pub proof fn public_key_is_multiple_of_generator(
    sk: Fr,
    pp: &PP,
    keys: KeyPair,
    drawn: KeyPair,
)
    requires
        call_ensures(KeyPair::from_secret, (sk, pp), keys),
        call_ensures(KeyPair::generate, (pp,), drawn),
    ensures
        keys.sk@ == sk@,
        keys.pk@ == g2_times(pp.g2@, sk@),
        drawn.pk@ == g2_times(pp.g2@, drawn.sk@),
        pp.standard() ==> g2_at(keys.pk@, sk@) && g2_at(drawn.pk@, drawn.sk@),
{
}

/// A signature is accepted exactly where its pairing with the generator is that of the hashed message
/// with the key.
pub proof fn verification_compares_pairings(
    sigma: G1,
    cpk: G2,
    msg: &[u8],
    pp: &PP,
    accepted: bool,
    s: int,
    x: int,
    m: int,
)
    requires
        call_ensures(verify_aggregate, (sigma, cpk, msg, pp), accepted),
    ensures
        accepted <==> pairing_value(pp.g2@, sigma@) == pairing_value(
            cpk@,
            g1_hash(msg@, vstd::utf8::encode_utf8("MBPChannel-V1-SIG-G1"@)),
        ),
        pp.standard() && g1_at(sigma@, s) && g2_at(cpk@, x) && g1_at(
            g1_hash(msg@, vstd::utf8::encode_utf8("MBPChannel-V1-SIG-G1"@)),
            m,
        ) ==> (accepted <==> reduced(s) == reduced(m * x)),
{
}

/// What is signed with the secret key of a pair is accepted under its public key.
pub proof fn signing_is_verified(
    sk: Fr,
    msg: &[u8],
    pp: &PP,
    keys: KeyPair,
    sigma: G1,
    accepted: bool,
)
    requires
        pp.standard(),
        call_ensures(KeyPair::from_secret, (sk, pp), keys),
        call_ensures(sign, (sk, msg), sigma),
        call_ensures(verify_aggregate, (sigma, keys.pk, msg, pp), accepted),
    ensures
        accepted,
{
    signature_is_accepted(sigma@, sk@, keys.pk@, msg@, *pp, accepted);
}

/// The sum of points is that of the first ones with the last added; one point is its own sum.
pub proof fn points_add_up_one_by_one(
    points: Seq<Seq<u64>>,
    point: Seq<u64>,
    keys: Seq<Seq<u8>>,
    key: Seq<u8>,
    xs: Seq<int>,
    x: int,
)
    ensures
        g1_total(seq![point]) == point,
        points.len() > 0 ==> g1_total(points.push(point)) == g1_sum(g1_total(points), point),
        g2_total(seq![key]) == key,
        keys.len() > 0 ==> g2_total(keys.push(key)) == g2_sum(g2_total(keys), key),
        sum_of(Seq::empty()) == 0,
        sum_of(xs.push(x)) == sum_of(xs) + x,
{
    assert(points.push(point).drop_last() =~= points);
    assert(keys.push(key).drop_last() =~= keys);
    assert(xs.push(x).drop_last() =~= xs);
}

/// The sum of signatures is the first with each of the others added in turn. There is none of no
/// signature at all, and one of any others.
pub proof fn signatures_are_added_in_turn(sigs: Vec<G1>, res: Result<G1, String>)
    requires
        call_ensures(aggregate_signatures, (sigs,), res),
    ensures
        sigs@.len() == 0 <==> res is Err,
        res matches Err(e) ==> e@ == "Cannot aggregate empty signatures"@,
        res matches Ok(agg) ==> agg@ == sigs@.skip(1).fold_left(
            sigs@[0]@,
            |sum: Seq<u64>, sig: G1| g1_sum(sum, sig@),
        ),
{
    if sigs@.len() > 0 {
        signature_total_is_fold(sigs@);
    }
}

/// The sum of the points of signatures is the first with each of the others added in turn.
proof fn signature_total_is_fold(sigs: Seq<G1>)
    requires
        sigs.len() > 0,
    ensures
        g1_total(g1_points(sigs)) == sigs.skip(1).fold_left(
            sigs[0]@,
            |sum: Seq<u64>, sig: G1| g1_sum(sum, sig@),
        ),
    decreases sigs.len(),
{
    let points = g1_points(sigs);
    let rest = sigs.skip(1);
    if sigs.len() > 1 {
        let head = sigs.drop_last();
        signature_total_is_fold(head);
        assert(g1_points(head) =~= points.drop_last());
        assert(head.skip(1) =~= rest.drop_last());
        assert(rest.last() == sigs.last());
        assert(points.last() == sigs.last()@);
    }
}

/// The sum of public keys is the first with each of the others added in turn. There is none of no key
/// at all, and one of any others.
pub proof fn public_keys_are_added_in_turn(pks: Vec<G2>, res: Result<G2, String>)
    requires
        call_ensures(aggregate_public_keys, (pks,), res),
    ensures
        pks@.len() == 0 <==> res is Err,
        res matches Err(e) ==> e@ == "Cannot aggregate empty public keys"@,
        res matches Ok(agg) ==> agg@ == pks@.skip(1).fold_left(
            pks@[0]@,
            |sum: Seq<u8>, pk: G2| g2_sum(sum, pk@),
        ),
{
    if pks@.len() > 0 {
        key_total_is_fold(pks@);
    }
}

/// The sum of the points of public keys is the first with each of the others added in turn.
proof fn key_total_is_fold(pks: Seq<G2>)
    requires
        pks.len() > 0,
    ensures
        g2_total(g2_points(pks)) == pks.skip(1).fold_left(
            pks[0]@,
            |sum: Seq<u8>, pk: G2| g2_sum(sum, pk@),
        ),
    decreases pks.len(),
{
    let points = g2_points(pks);
    let rest = pks.skip(1);
    if pks.len() > 1 {
        let head = pks.drop_last();
        key_total_is_fold(head);
        assert(g2_points(head) =~= points.drop_last());
        assert(head.skip(1) =~= rest.drop_last());
        assert(rest.last() == pks.last());
        assert(points.last() == pks.last()@);
    }
}

/// Signatures of one message under many secret keys, added up, are accepted under their public keys,
/// added up.
pub proof fn aggregate_signing_is_verified(
    xs: Seq<int>,
    sigs: Vec<G1>,
    pks: Vec<G2>,
    msg: &[u8],
    pp: &PP,
    sigma: Result<G1, String>,
    cpk: Result<G2, String>,
    accepted: bool,
)
    requires
        pp.standard(),
        xs.len() > 0,
        sigs@.len() == xs.len(),
        pks@.len() == xs.len(),
        g1_in_group(g1_hash(msg@, vstd::utf8::encode_utf8("MBPChannel-V1-SIG-G1"@))),
        forall|i: int, m: int|
            0 <= i < xs.len() && #[trigger] g1_at(
                g1_hash(msg@, vstd::utf8::encode_utf8("MBPChannel-V1-SIG-G1"@)),
                m,
            ) ==> g1_at((#[trigger] sigs@[i])@, m * xs[i]),
        forall|i: int| 0 <= i < xs.len() ==> g2_at((#[trigger] pks@[i])@, xs[i]),
        call_ensures(aggregate_signatures, (sigs,), sigma),
        call_ensures(aggregate_public_keys, (pks,), cpk),
        sigma is Ok && cpk is Ok ==> call_ensures(
            verify_aggregate,
            (sigma.unwrap(), cpk.unwrap(), msg, pp),
            accepted,
        ),
    ensures
        sigma is Ok,
        cpk is Ok,
        accepted,
{
    let points = g1_points(sigs@);
    let keys = g2_points(pks@);
    assert(message_point(msg@) == g1_hash(
        msg@,
        vstd::utf8::encode_utf8("MBPChannel-V1-SIG-G1"@),
    ));
    assert forall|i: int| 0 <= i < points.len() implies signed_with(
        #[trigger] points[i],
        xs[i],
        msg@,
    ) by {
        assert(points[i] == sigs@[i]@);
    }
    assert(all_signed_with(points, xs, msg@));
    assert forall|i: int| 0 <= i < keys.len() implies g2_at(#[trigger] keys[i], xs[i]) by {
        assert(keys[i] == pks@[i]@);
    }
    assert(all_keys_of(keys, xs));
    signature_is_accepted(
        sigma.unwrap()@,
        sum_of(xs),
        cpk.unwrap()@,
        msg@,
        *pp,
        accepted,
    );
}

/// A message is hidden by taking its point as often as the blinding scalar says, and a hidden message
/// is signed by taking its point as often as the secret key says.
pub proof fn blinding_is_multiplication(
    msg: &[u8],
    r: Fr,
    sk: Fr,
    drawn: BlindedMessage,
    blinded: BlindedMessage,
    point: G1,
    blinded_sig: G1,
)
    requires
        call_ensures(blind, (msg,), drawn),
        call_ensures(blind_with, (msg, r), blinded),
        call_ensures(sign_blinded, (sk, point), blinded_sig),
    ensures
        blinded.r@ == r@,
        blinded.point@ == g1_times(
            g1_hash(msg@, vstd::utf8::encode_utf8("MBPChannel-V1-SIG-G1"@)),
            r@,
        ),
        drawn.point@ == g1_times(
            g1_hash(msg@, vstd::utf8::encode_utf8("MBPChannel-V1-SIG-G1"@)),
            drawn.r@,
        ),
        blinded_sig@ == g1_times(point@, sk@),
{
}

/// Blinding, signing and unblinding give the signature that signing the message itself gives, whatever
/// the blinding scalar is but zero.
pub proof fn blind_signature_is_plain_signature(
    msg: &[u8],
    r: Fr,
    sk: Fr,
    blinded: BlindedMessage,
    blinded_sig: G1,
    sigma: G1,
    plain: G1,
)
    requires
        r@ != 0,
        call_ensures(blind_with, (msg, r), blinded),
        call_ensures(sign_blinded, (sk, blinded.point), blinded_sig),
        call_ensures(unblind, (blinded_sig, r), sigma),
        call_ensures(sign, (sk, msg), plain),
    ensures
        sigma@ == plain@,
{
    let k = choose|k: int|
        {
            &&& 0 <= k < group_order()
            &&& if r@ == 0 {
                k == 0
            } else {
                reduced(r@ * k) == 1
            }
            &&& #[trigger] g1_times(blinded_sig@, k) == sigma@
            &&& crate::crypto::blind::scaled(blinded_sig@, k, sigma@)
        };
    unblinded_is_signature(msg@, blinded, sk@, blinded_sig@, k, sigma@);
    signature_is_unique(sigma@, plain@, sk@, msg@);
}

/// The pairing is that of its two points, and two values of it are equal exactly where their encodings
/// are.
pub proof fn pairings_are_compared_by_value(
    p2: G2,
    p1: G1,
    paired: Fp12,
    one: &Fp12,
    other: &Fp12,
    equal: bool,
)
    requires
        call_ensures(pairing, (p2, p1), paired),
        call_ensures(fp12_eq, (one, other), equal),
    ensures
        paired@ == pairing_value(p2@, p1@),
        equal <==> one@ == other@,
{
}

/// A scalar is read from exactly 64 hexadecimal digits, and is the integer that they give modulo the
/// group order.
pub proof fn scalars_are_64_digits(text: &str, res: Result<Fr, String>)
    requires
        call_ensures(Fr::from_hex, (text,), res),
    ensures
        res is Ok <==> hex_decodes(text@) && text@.len() == 64,
        res matches Ok(r) ==> r@ == be_value(hex_bytes(text@)) as int
            % 0x73eda753299d7d483339d80809a1d80553bda402fffe5bfeffffffff00000001int,
        hex_decodes(text@) && text@.len() != 64 ==> res->Err_0@ == "Invalid Fr hex length"@,
{
    reveal(group_order);
}

/// A scalar can be read back from its text, which is 64 digits long, and its bytes stand for it.
pub proof fn scalars_are_read_back(
    x: &Fr,
    bytes: [u8; 32],
    text: String,
    shown: &str,
    back: Result<Fr, String>,
)
    requires
        call_ensures(Fr::to_be_bytes, (x,), bytes),
        call_ensures(Fr::to_hex, (x,), text),
        shown@ == text@,
        call_ensures(Fr::from_hex, (shown,), back),
    ensures
        be_value(bytes@) == x@,
        text@ == hex_text(bytes@),
        text@.len() == 64,
        back matches Ok(y) && y@ == x@,
{
    hex_round_trip(bytes@);
}

/// Bytes stand for a scalar with the most significant first, or reversed with the least significant
/// first; a small integer stands for itself; and a scalar times its inverse is one, unless it is zero.
pub proof fn scalars_stand_for_integers(
    bytes: &[u8],
    reversed: &[u8],
    value: u64,
    x: &Fr,
    big: Fr,
    little: Fr,
    small: Fr,
    zero: Fr,
    inverse: Fr,
)
    requires
        reversed@ == bytes@.reverse(),
        call_ensures(Fr::from_be_bytes, (bytes,), big),
        call_ensures(Fr::from_le_bytes, (reversed,), little),
        call_ensures(Fr::from_u64, (value,), small),
        call_ensures(Fr::zero, (), zero),
        call_ensures(Fr::inverse, (x,), inverse),
    ensures
        big@ == be_value(bytes@) as int % group_order(),
        little@ == big@,
        small@ == value,
        zero@ == 0,
        x@ == 0 ==> inverse@ == 0,
        x@ != 0 ==> (x@ * inverse@) % group_order() == 1,
{
    assert(reversed@.reverse() =~= bytes@);
}

/// A point of the first curve is read from exactly 96 hexadecimal digits that encode one, and encodes
/// to the bytes that they give.
pub proof fn first_points_are_96_digits(text: &str, res: Result<G1, String>)
    requires
        call_ensures(G1::from_hex, (text,), res),
    ensures
        res is Ok <==> hex_decodes(text@) && text@.len() == 96 && g1_encodes_point(
            hex_bytes(text@),
        ),
        res matches Ok(p) ==> g1_compressed(p@) == hex_bytes(text@),
        hex_decodes(text@) && text@.len() != 96 ==> res->Err_0@ == "Invalid G1 hex length"@,
        hex_decodes(text@) && text@.len() == 96 && res is Err ==> res->Err_0@
            == "G1 uncompress failed"@,
{
}

/// A point of the first group can be read back from its text.
pub proof fn first_points_are_read_back(
    p: &G1,
    bytes: [u8; 48],
    text: String,
    shown: &str,
    back: Result<G1, String>,
)
    requires
        call_ensures(G1::to_compressed, (p,), bytes),
        call_ensures(G1::to_hex, (p,), text),
        shown@ == text@,
        call_ensures(G1::from_hex, (shown,), back),
    ensures
        bytes@ == g1_compressed(p@),
        text@ == hex_text(bytes@),
        text@.len() == 96,
        g1_in_group(p@) ==> (back matches Ok(q) && q@ == p@),
{
}

/// A point of the second curve is read from exactly 192 hexadecimal digits that encode one, and can be
/// read back from its text.
pub proof fn second_points_are_192_digits(
    text: &str,
    res: Result<G2, String>,
    p: &G2,
    of_p: String,
    shown: &str,
    back: Result<G2, String>,
)
    requires
        call_ensures(G2::from_hex, (text,), res),
        call_ensures(G2::to_hex, (p,), of_p),
        shown@ == of_p@,
        call_ensures(G2::from_hex, (shown,), back),
    ensures
        res is Ok <==> hex_decodes(text@) && text@.len() == 192 && g2_decodes(hex_bytes(text@)),
        res matches Ok(q) ==> q@ == hex_bytes(text@),
        hex_decodes(text@) && text@.len() != 192 ==> res->Err_0@ == "Invalid G2 hex length"@,
        hex_decodes(text@) && text@.len() == 192 && res is Err ==> res->Err_0@
            == "G2 uncompress failed"@,
        of_p@ == hex_text(p@),
        back matches Ok(q) && q@ == p@,
{
}

/// Hashing to the first group is a function of the message and the tag, and the generators are the
/// standard ones, once.
pub proof fn points_are_made_from_their_inputs(
    msg: &[u8],
    dst: &[u8],
    hashed: G1,
    first: G1,
    second: G2,
)
    requires
        call_ensures(G1::hash_to_curve, (msg, dst), hashed),
        call_ensures(G1::generator, (), first),
        call_ensures(G2::generator, (), second),
    ensures
        hashed@ == g1_hash(msg@, dst@),
        first@ == g1_generator(),
        second@ == g2_generator(),
        g1_at(first@, 1),
        g2_at(second@, 1),
{
}

/// For debugging scalars and points are shown as their digits in brackets after the name of their kind.
pub proof fn debug_texts_show_the_digits(
    x: &Fr,
    p: &G1,
    q: &G2,
    of_x: String,
    of_p: String,
    of_q: String,
    digits_x: String,
    digits_p: String,
    digits_q: String,
)
    requires
        call_ensures(Fr::debug_text, (x,), of_x),
        call_ensures(G1::debug_text, (p,), of_p),
        call_ensures(G2::debug_text, (q,), of_q),
        call_ensures(Fr::to_hex, (x,), digits_x),
        call_ensures(G1::to_hex, (p,), digits_p),
        call_ensures(G2::to_hex, (q,), digits_q),
    ensures
        of_x@ == "Fr("@ + digits_x@ + ")"@,
        of_p@ == "G1("@ + digits_p@ + ")"@,
        of_q@ == "G2("@ + digits_q@ + ")"@,
{
}

/// Scalars add, subtract and multiply modulo the group order.
pub proof fn scalars_compute_modulo_the_order(x: Fr, y: Fr, sum: Fr, difference: Fr, product: Fr)
    requires
        call_ensures(<Fr as Add>::add, (x, y), sum),
        call_ensures(<Fr as Sub>::sub, (x, y), difference),
        call_ensures(<Fr as Mul>::mul, (x, y), product),
    ensures
        sum@ == (x@ + y@) % group_order(),
        difference@ == (x@ - y@) % group_order(),
        product@ == (x@ * y@) % group_order(),
{
}

/// Points of the first group add, subtract and multiply as their factors do.
pub proof fn first_points_compute_as_factors(
    p: G1,
    q: G1,
    k: Fr,
    sum: G1,
    difference: G1,
    product: G1,
    a: int,
    b: int,
)
    requires
        call_ensures(<G1 as Add>::add, (p, q), sum),
        call_ensures(<G1 as Sub>::sub, (p, q), difference),
        call_ensures(<G1 as Mul<Fr>>::mul, (p, k), product),
    ensures
        sum@ == g1_sum(p@, q@),
        difference@ == g1_sum(p@, g1_negation(q@)),
        product@ == g1_times(p@, k@),
        g1_at(p@, a) && g1_at(q@, b) ==> g1_at(sum@, a + b) && g1_at(difference@, a - b),
        g1_at(p@, a) ==> g1_at(product@, a * k@),
{
}

/// Points of the second group add, subtract and multiply as their factors do.
pub proof fn second_points_compute_as_factors(
    p: G2,
    q: G2,
    k: Fr,
    sum: G2,
    difference: G2,
    product: G2,
    a: int,
    b: int,
)
    requires
        call_ensures(<G2 as Add>::add, (p, q), sum),
        call_ensures(<G2 as Sub>::sub, (p, q), difference),
        call_ensures(<G2 as Mul<Fr>>::mul, (p, k), product),
    ensures
        sum@ == g2_sum(p@, q@),
        difference@ == g2_sum(p@, g2_negation(q@)),
        product@ == g2_times(p@, k@),
        g2_at(p@, a) && g2_at(q@, b) ==> g2_at(sum@, a + b) && g2_at(difference@, a - b),
        g2_at(p@, a) ==> g2_at(product@, a * k@),
{
}

/// Scalars are equal exactly where their integers are, and points where their coordinates are.
pub proof fn equality_is_by_value(x: &Fr, y: &Fr, scalars: bool, p: &G1, q: &G1, points: bool)
    requires
        call_ensures(<Fr as PartialEq>::eq, (x, y), scalars),
        call_ensures(<G1 as PartialEq>::eq, (p, q), points),
    ensures
        scalars <==> x@ == y@,
        points <==> p@ == q@,
{
}

/// Random scalars, secret keys and blinding scalars are made of what the random number generator gave.
pub proof fn scalars_are_drawn(
    msg: &[u8],
    pp: &PP,
    scalar: Fr,
    keys: KeyPair,
    blinded: BlindedMessage,
)
    requires
        call_ensures(Fr::random, (), scalar),
        call_ensures(KeyPair::generate, (pp,), keys),
        call_ensures(blind, (msg,), blinded),
    ensures
        exists|bytes: [u8; 32]| #[trigger] drawn_bytes(bytes) && scalar@ == le_value(bytes@) as int
            % group_order(),
        exists|bytes: [u8; 32]| #[trigger] drawn_bytes(bytes) && keys.sk@ == le_value(bytes@) as int
            % group_order(),
        exists|bytes: [u8; 32]| #[trigger] drawn_bytes(bytes) && blinded.r@ == le_value(
            bytes@,
        ) as int % group_order(),
{
}

} // verus!
