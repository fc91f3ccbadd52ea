//! The curve BLS12-381 as the outside crates compute it: what is taken on trust of them, stated
//! over integers, limbs and bytes.
use crate::encoding::{be_bytes, be_value};
use blst::blst_fp12;
use blstrs::{G1Affine, G1Projective, G2Affine, G2Projective, Scalar};
use ff::Field;
use group::prime::PrimeCurveAffine;
use rand::RngCore;
use sha2::Digest;
use vstd::prelude::*;

verus! {

/// The order of the groups, a prime: the modulus of the scalar field.
#[verifier::opaque]
pub open spec fn group_order() -> int {
    0x73eda753299d7d483339d80809a1d80553bda402fffe5bfeffffffff00000001int
}

/// The order is larger than every 64-bit integer.
pub proof fn group_order_large()
    ensures
        group_order() > 0xffff_ffff_ffff_ffff_ffffint,
{
    reveal(group_order);
}

/// An integer reduced modulo the group order.
pub open spec fn reduced(a: int) -> int {
    a % group_order()
}

/// The integer that the big-endian encoding of a scalar stands for.
pub open spec fn scalar_value(bytes: Seq<u8>) -> int {
    be_value(bytes) as int
}

/// Calls `+` of `blstrs::Scalar`: addition modulo the group order.
#[verifier::external_body]
pub(crate) fn scalar_sum(a: &[u8; 32], b: &[u8; 32]) -> (res: [u8; 32])
    requires
        scalar_value(a@) < group_order(),
        scalar_value(b@) < group_order(),
    ensures
        scalar_value(res@) == reduced(
            scalar_value(a@) + scalar_value(b@),
        ),
{
    (Scalar::from_bytes_be(a).unwrap() + Scalar::from_bytes_be(b).unwrap()).to_bytes_be()
}

/// Calls `-` of `blstrs::Scalar`: subtraction modulo the group order.
#[verifier::external_body]
pub(crate) fn scalar_difference(a: &[u8; 32], b: &[u8; 32]) -> (res: [u8; 32])
    requires
        scalar_value(a@) < group_order(),
        scalar_value(b@) < group_order(),
    ensures
        scalar_value(res@) == reduced(
            scalar_value(a@) - scalar_value(b@),
        ),
{
    (Scalar::from_bytes_be(a).unwrap() - Scalar::from_bytes_be(b).unwrap()).to_bytes_be()
}

/// Calls `*` of `blstrs::Scalar`: multiplication modulo the group order.
#[verifier::external_body]
pub(crate) fn scalar_product(a: &[u8; 32], b: &[u8; 32]) -> (res: [u8; 32])
    requires
        scalar_value(a@) < group_order(),
        scalar_value(b@) < group_order(),
    ensures
        scalar_value(res@) == reduced(
            scalar_value(a@) * scalar_value(b@),
        ),
{
    (Scalar::from_bytes_be(a).unwrap() * Scalar::from_bytes_be(b).unwrap()).to_bytes_be()
}

/// Calls `invert` of `blstrs::Scalar`: the inverse modulo the group order, of zero alone none.
#[verifier::external_body]
pub(crate) fn scalar_inverse(a: &[u8; 32]) -> (res: Option<[u8; 32]>)
    requires
        scalar_value(a@) < group_order(),
    ensures
        match res {
            Some(b) => {
                &&& scalar_value(b@) < group_order()
                &&& reduced(scalar_value(a@) * scalar_value(b@)) == 1
            },
            None => scalar_value(a@) == 0,
        },
        scalar_value(a@) == 0 ==> res is None,
{
    let inverse: Option<Scalar> = Scalar::from_bytes_be(a).unwrap().invert().into();
    inverse.map(|s| s.to_bytes_be())
}

/// Calls `From<u64>` of `blstrs::Scalar`: the scalar of a 64-bit integer.
#[verifier::external_body]
pub(crate) fn scalar_of(value: u64) -> (res: [u8; 32])
    ensures
        scalar_value(res@) == value,
{
    Scalar::from(value).to_bytes_be()
}

/// Calls `fill_bytes` of `rand::thread_rng`. Nothing is known of the bytes.
#[verifier::external_body]
pub(crate) fn random_bytes() -> (res: [u8; 32]) {
    let mut bytes = [0u8; 32];
    rand::thread_rng().fill_bytes(&mut bytes);
    bytes
}

/// Whether 32 bytes are what the random number generator gave.
pub closed spec fn drawn_bytes(bytes: [u8; 32]) -> bool {
    call_ensures(random_bytes, (), bytes)
}

/// What a call of the random number generator gave was drawn.
pub(crate) proof fn bytes_are_drawn(bytes: [u8; 32])
    requires
        call_ensures(random_bytes, (), bytes),
    ensures
        drawn_bytes(bytes),
{
}

/// The SHA-256 digest of a byte string.
pub uninterp spec fn sha256(data: Seq<u8>) -> Seq<u8>;

/// Calls `sha2::Sha256::digest`: the digest is a function of the data. For the one text that the
/// parameters are made from the digest is written out.
#[verifier::external_body]
pub(crate) fn sha256_digest(data: &[u8]) -> (res: [u8; 32])
    ensures
        res@ == sha256(data@),
        data@ == vstd::utf8::encode_utf8("MBPChannel_H_Generator_Seed_v1"@) ==> be_value(res@)
            == 0x413eb74a5d5495d9176c8fe6340d5d59330e56568eae0695dc1da95ba8471f85nat,
{
    sha2::Sha256::digest(data).into()
}

/// The generator of the first group: its two affine coordinates in Montgomery form, six limbs
/// each, lowest first.
#[verifier::opaque]
pub open spec fn g1_generator() -> Seq<u64> {
    seq![
        0x5cb38790fd530c16,
        0x7817fc679976fff5,
        0x154f95c7143ba1c1,
        0xf0ae6acdf3d0e747,
        0xedce6ecc21dbf440,
        0x120177419e0bfb75,
        0xbaac93d50ce72271,
        0x8c22631a7918fd8e,
        0xdd595f13570725ce,
        0x51ac582950405194,
        0x0e1c8c3fad0059c0,
        0x0bbc3efc5008a26a,
    ]
}

/// What `blstrs` gives for a point of the first curve times a scalar.
pub uninterp spec fn g1_times(p: Seq<u64>, k: int) -> Seq<u64>;

/// What `blstrs` gives for the sum of two points of the first curve.
pub uninterp spec fn g1_sum(p: Seq<u64>, q: Seq<u64>) -> Seq<u64>;

/// What `blstrs` gives for the opposite of a point of the first curve.
pub uninterp spec fn g1_negation(p: Seq<u64>) -> Seq<u64>;

/// What `blstrs` gives for a message hashed to the first group under a domain separation tag.
pub uninterp spec fn g1_hash(msg: Seq<u8>, dst: Seq<u8>) -> Seq<u64>;

/// The compressed encoding of a point of the first curve.
pub uninterp spec fn g1_compressed(p: Seq<u64>) -> Seq<u8>;

/// The point of the first curve of which 48 bytes are the compressed encoding.
pub uninterp spec fn g1_decoded(enc: Seq<u8>) -> Seq<u64>;

/// The modulus of the field that coordinates are in, a prime.
#[verifier::opaque]
pub open spec fn field_order() -> int {
    0x1a0111ea397fe69a4b1ba7b6434bacd764774b84f38512bf6730d2a0f6b0f6241eabfffeb153ffffb9feffffffffaaabint
}

/// Whether a byte string is the compressed encoding of a neutral point.
pub open spec fn encodes_neutral(enc: Seq<u8>) -> bool {
    &&& enc[0] == 0xc0
    &&& forall|i: int| 1 <= i < enc.len() ==> enc[i] == 0
}

/// The integer that a byte string stands for without its three highest bits, which a compressed
/// encoding uses as flags.
pub open spec fn unflagged(enc: Seq<u8>) -> int {
    be_value(enc.update(0, enc[0] % 32)) as int
}

/// The square of an element of the field.
pub open spec fn field_square(y: int) -> int {
    (y * y) % field_order()
}

/// Whether a byte string is the compressed encoding of a point that can be read: 48 bytes with the
/// highest bit set; with the next bit set too only for the neutral point; and otherwise with a
/// coordinate `x` in the field, not zero, for which `x * x * x + 4` is a square.
#[verifier::opaque]
pub open spec fn g1_encodes_point(enc: Seq<u8>) -> bool {
    &&& enc.len() == 48
    &&& enc[0] >= 0x80
    &&& if enc[0] >= 0xc0 {
        encodes_neutral(enc)
    } else {
        let x = unflagged(enc);
        &&& 0 < x < field_order()
        &&& exists|y: int| #[trigger] field_square(y) == (x * x * x + 4) % field_order()
    }
}

/// The point of the first curve of which a byte string is the compressed encoding, if there is one that
/// can be read.
pub open spec fn g1_uncompressed(enc: Seq<u8>) -> Option<Seq<u64>> {
    if g1_encodes_point(enc) {
        Some(g1_decoded(enc))
    } else {
        None
    }
}

/// The flags of a compressed encoding: without the highest bit no bytes encode a point of either curve,
/// and with the two highest bits only those of the neutral point do.
pub proof fn encodings_are_flagged(enc: Seq<u8>)
    ensures
        enc[0] < 0x80 ==> !g1_encodes_point(enc) && !g2_decodes(enc),
        enc[0] >= 0xc0 && !encodes_neutral(enc) ==> !g1_encodes_point(enc) && !g2_decodes(enc),
{
    reveal(g1_encodes_point);
    reveal(g2_decodes);
}

/// Whether `p` is `a` times the generator of the first group.
pub open spec fn g1_at(p: Seq<u64>, a: int) -> bool {
    p == g1_times(g1_generator(), reduced(a))
}

/// Whether `p` belongs to the first group: whether it is a multiple of the generator.
pub open spec fn g1_in_group(p: Seq<u64>) -> bool {
    exists|a: int| g1_at(p, a)
}

/// Calls `generator` of `blstrs::G1Affine`: the point is the standard generator, which is once
/// itself.
#[verifier::external_body]
pub(crate) fn g1_base() -> (res: [u64; 12])
    ensures
        res@ == g1_generator(),
        g1_at(res@, 1),
{
    let g = G1Affine::generator();
    let mut out = [0u64; 12];
    out[..6].copy_from_slice(&g.as_ref().x.l);
    out[6..].copy_from_slice(&g.as_ref().y.l);
    out
}

/// Calls `+` of `blstrs::G1Projective`, the sum of the curve: a function of the two points, on
/// multiples of the generator the sum of the factors times the generator.
#[verifier::external_body]
pub(crate) fn g1_add(p: &[u64; 12], q: &[u64; 12]) -> (res: [u64; 12])
    ensures
        res@ == g1_sum(p@, q@),
        forall|a: int, b: int|
            #[trigger] g1_at(p@, a) && #[trigger] g1_at(q@, b) ==> g1_at(res@, a + b),
{
    let (mut a, mut b) = (G1Affine::default(), G1Affine::default());
    a.as_mut().x.l.copy_from_slice(&p[..6]);
    a.as_mut().y.l.copy_from_slice(&p[6..]);
    b.as_mut().x.l.copy_from_slice(&q[..6]);
    b.as_mut().y.l.copy_from_slice(&q[6..]);
    let sum = G1Affine::from(G1Projective::from(a) + G1Projective::from(b));
    let mut out = [0u64; 12];
    out[..6].copy_from_slice(&sum.as_ref().x.l);
    out[6..].copy_from_slice(&sum.as_ref().y.l);
    out
}

/// Calls `-` of `blstrs::G1Affine`, the opposite of a point: a function of the point, on a multiple
/// of the generator the opposite of the factor times the generator.
#[verifier::external_body]
pub(crate) fn g1_neg(p: &[u64; 12]) -> (res: [u64; 12])
    ensures
        res@ == g1_negation(p@),
        forall|a: int| #[trigger] g1_at(p@, a) ==> g1_at(res@, -a),
{
    let mut a = G1Affine::default();
    a.as_mut().x.l.copy_from_slice(&p[..6]);
    a.as_mut().y.l.copy_from_slice(&p[6..]);
    let negated = -a;
    let mut out = [0u64; 12];
    out[..6].copy_from_slice(&negated.as_ref().x.l);
    out[6..].copy_from_slice(&negated.as_ref().y.l);
    out
}

/// Calls `*` of `blstrs::G1Projective` by a scalar: a function of the point and the scalar, on a
/// multiple of the generator the product of the factors times the generator. The generator has the
/// group order, so a point is that generator times one factor alone, up to the order.
#[verifier::external_body]
pub(crate) fn g1_mul(p: &[u64; 12], k: &[u8; 32]) -> (res: [u64; 12])
    requires
        scalar_value(k@) < group_order(),
    ensures
        res@ == g1_times(p@, scalar_value(k@)),
        forall|a: int| #[trigger]
            g1_at(p@, a) ==> g1_at(res@, a * scalar_value(k@)),
        forall|a: int, b: int|
            #[trigger] g1_at(res@, a) && #[trigger] g1_at(res@, b) ==> reduced(a) == reduced(b),
{
    let mut a = G1Affine::default();
    a.as_mut().x.l.copy_from_slice(&p[..6]);
    a.as_mut().y.l.copy_from_slice(&p[6..]);
    let scalar = Scalar::from_bytes_be(k).unwrap();
    let product = G1Affine::from(G1Projective::from(a) * scalar);
    let mut out = [0u64; 12];
    out[..6].copy_from_slice(&product.as_ref().x.l);
    out[6..].copy_from_slice(&product.as_ref().y.l);
    out
}

/// Calls `hash_to_curve` of `blstrs::G1Projective` with no augmentation: a function of the message
/// and the tag, and always a point of the group.
#[verifier::external_body]
pub(crate) fn g1_hash_to_curve(msg: &[u8], dst: &[u8]) -> (res: [u64; 12])
    ensures
        res@ == g1_hash(msg@, dst@),
        g1_in_group(res@),
{
    let point = G1Affine::from(G1Projective::hash_to_curve(msg, dst, &[]));
    let mut out = [0u64; 12];
    out[..6].copy_from_slice(&point.as_ref().x.l);
    out[6..].copy_from_slice(&point.as_ref().y.l);
    out
}

/// Calls `to_compressed` of `blstrs::G1Affine`: a function of the point, from which a point of the
/// group can be read back.
#[verifier::external_body]
pub(crate) fn g1_compress(p: &[u64; 12]) -> (res: [u8; 48])
    ensures
        res@ == g1_compressed(p@),
        g1_in_group(p@) ==> g1_uncompressed(res@) == Some(p@),
{
    let mut a = G1Affine::default();
    a.as_mut().x.l.copy_from_slice(&p[..6]);
    a.as_mut().y.l.copy_from_slice(&p[6..]);
    a.to_compressed()
}

/// Calls `from_compressed_unchecked` of `blstrs::G1Affine`, which asks that the point be on the
/// curve and not that it be in the group, but refuses the two points with the coordinate `x` zero.
/// The point is a function of the bytes, which are the one encoding of it.
#[verifier::external_body]
pub(crate) fn g1_uncompress(enc: &[u8; 48]) -> (res: Option<[u64; 12]>)
    ensures
        match res {
            Some(p) => {
                &&& g1_encodes_point(enc@)
                &&& p@ == g1_decoded(enc@)
                &&& g1_compressed(p@) == enc@
            },
            None => !g1_encodes_point(enc@),
        },
{
    let point: Option<G1Affine> = G1Affine::from_compressed_unchecked(enc).into();
    point.map(|p| {
        let mut out = [0u64; 12];
        out[..6].copy_from_slice(&p.as_ref().x.l);
        out[6..].copy_from_slice(&p.as_ref().y.l);
        out
    })
}

/// Whether 48 bytes are the compressed encoding of a point of the first group.
pub open spec fn g1_encodes_member(enc: Seq<u8>) -> bool {
    g1_uncompressed(enc) matches Some(p) && g1_in_group(p)
}

/// Calls `from_compressed` of `blstrs::G1Affine`: it succeeds where the bytes decode to a point of
/// the group.
#[verifier::external_body]
pub(crate) fn g1_member(enc: &[u8; 48]) -> (res: bool)
    ensures
        res == g1_encodes_member(enc@),
{
    bool::from(G1Affine::from_compressed(enc).is_some())
}

/// The compressed encoding of the generator of the second group.
#[verifier::opaque]
pub open spec fn g2_generator() -> Seq<u8> {
    be_bytes(
        0x93e02b6052719f607dacd3a088274f65596bd0d09920b61ab5da61bbdc7f5049334cf11213945d57e5ac7d055d042b7e024aa2b2f08f0a91260805272dc51051c6e47ad4fa403b02b4510b647ae3d1770bac0326a805bbefd48056c8c121bdb8nat,
        96,
    )
}

/// The real part of the square of an element of the quadratic extension of the field.
pub open spec fn real_square(y0: int, y1: int) -> int {
    (y0 * y0 - y1 * y1) % field_order()
}

/// The imaginary part of the square of an element of the quadratic extension of the field.
pub open spec fn imaginary_square(y0: int, y1: int) -> int {
    (2 * y0 * y1) % field_order()
}

/// Whether a byte string is the compressed encoding of a point of the second curve: 96 bytes with the
/// highest bit set; with the next bit set too only for the neutral point; and otherwise with a
/// coordinate `x`, its imaginary part `x1` first, in the quadratic extension of the field, for which
/// `x * x * x + 4 + 4i` is a square.
#[verifier::opaque]
pub open spec fn g2_decodes(enc: Seq<u8>) -> bool {
    &&& enc.len() == 96
    &&& enc[0] >= 0x80
    &&& if enc[0] >= 0xc0 {
        encodes_neutral(enc)
    } else {
        let x1 = unflagged(enc.subrange(0, 48));
        let x0 = be_value(enc.subrange(48, 96)) as int;
        &&& x0 < field_order()
        &&& x1 < field_order()
        &&& exists|y0: int, y1: int|
            {
                &&& #[trigger] real_square(y0, y1) == (x0 * x0 * x0 - 3 * x0 * x1 * x1 + 4)
                    % field_order()
                &&& imaginary_square(y0, y1) == (3 * x0 * x0 * x1 - x1 * x1 * x1 + 4)
                    % field_order()
            }
    }
}

/// What `blstrs` gives for a point of the second curve times a scalar.
pub uninterp spec fn g2_times(p: Seq<u8>, k: int) -> Seq<u8>;

/// What `blstrs` gives for the sum of two points of the second curve.
pub uninterp spec fn g2_sum(p: Seq<u8>, q: Seq<u8>) -> Seq<u8>;

/// What `blstrs` gives for the opposite of a point of the second curve.
pub uninterp spec fn g2_negation(p: Seq<u8>) -> Seq<u8>;

/// Whether `p` encodes `a` times the generator of the second group.
pub open spec fn g2_at(p: Seq<u8>, a: int) -> bool {
    p == g2_times(g2_generator(), reduced(a))
}

/// Whether `p` encodes a point of the second group: a multiple of the generator.
pub open spec fn g2_in_group(p: Seq<u8>) -> bool {
    exists|a: int| g2_at(p, a)
}

/// Calls `generator` of `blstrs::G2Affine`: the point is the standard generator, which is once
/// itself.
#[verifier::external_body]
pub(crate) fn g2_base() -> (res: [u8; 96])
    ensures
        res@ == g2_generator(),
        g2_decodes(res@),
        g2_at(res@, 1),
{
    G2Affine::generator().to_compressed()
}

/// Calls `from_compressed_unchecked` of `blstrs::G2Affine`, which asks that the point be on the
/// curve and not that it be in the group: it succeeds on the encodings of points.
#[verifier::external_body]
pub(crate) fn g2_valid(enc: &[u8; 96]) -> (res: bool)
    ensures
        res == g2_decodes(enc@),
{
    bool::from(G2Affine::from_compressed_unchecked(enc).is_some())
}

/// Calls `+` of `blstrs::G2Projective`, the sum of the curve: a function of the two points, on
/// multiples of the generator the sum of the factors times the generator.
#[verifier::external_body]
pub(crate) fn g2_add(p: &[u8; 96], q: &[u8; 96]) -> (res: [u8; 96])
    requires
        g2_decodes(p@),
        g2_decodes(q@),
    ensures
        res@ == g2_sum(p@, q@),
        g2_decodes(res@),
        forall|a: int, b: int|
            #[trigger] g2_at(p@, a) && #[trigger] g2_at(q@, b) ==> g2_at(res@, a + b),
{
    let a = G2Projective::from_compressed_unchecked(p).unwrap();
    let b = G2Projective::from_compressed_unchecked(q).unwrap();
    (a + b).to_compressed()
}

/// Calls `-` of `blstrs::G2Projective`, the opposite of a point: a function of the point, on a
/// multiple of the generator the opposite of the factor times the generator.
#[verifier::external_body]
pub(crate) fn g2_neg(p: &[u8; 96]) -> (res: [u8; 96])
    requires
        g2_decodes(p@),
    ensures
        res@ == g2_negation(p@),
        g2_decodes(res@),
        forall|a: int| #[trigger] g2_at(p@, a) ==> g2_at(res@, -a),
{
    (-G2Projective::from_compressed_unchecked(p).unwrap()).to_compressed()
}

/// Calls `*` of `blstrs::G2Projective` by a scalar: a function of the point and the scalar, on a
/// multiple of the generator the product of the factors times the generator.
#[verifier::external_body]
pub(crate) fn g2_mul(p: &[u8; 96], k: &[u8; 32]) -> (res: [u8; 96])
    requires
        g2_decodes(p@),
        scalar_value(k@) < group_order(),
    ensures
        res@ == g2_times(p@, scalar_value(k@)),
        g2_decodes(res@),
        forall|a: int| #[trigger]
            g2_at(p@, a) ==> g2_at(res@, a * scalar_value(k@)),
{
    let a = G2Projective::from_compressed_unchecked(p).unwrap();
    (a * Scalar::from_bytes_be(k).unwrap()).to_compressed()
}

/// What `blst` gives for the pairing of a point of the second curve with one of the first: the
/// result of the final exponentiation, as bytes.
pub uninterp spec fn pairing_value(q: Seq<u8>, p: Seq<u64>) -> Seq<u8>;

/// The pairing of the generator of the second group with `a` times that of the first.
pub open spec fn gt_at(a: int) -> Seq<u8> {
    pairing_value(g2_generator(), g1_times(g1_generator(), reduced(a)))
}

/// The product of two integers, reduced.
pub open spec fn multiple(c: int, s: int) -> int {
    reduced(c * s)
}

/// Whether `v` is the pairing of the generator of the second group with `c` times that of the first,
/// and has the group order: only the multiples of the order make `c` vanish.
pub open spec fn has_full_order(v: Seq<u8>, c: int) -> bool {
    &&& v == gt_at(c)
    &&& forall|s: int| #[trigger] multiple(c, s) == 0 ==> reduced(s) == 0
}

/// Calls `miller_loop`, `final_exp` and `to_bendian` of `blst::blst_fp12`: a function of the two
/// points. The pairing is bilinear and not degenerate: on `b` times the one generator and `a` times
/// the other it is what pairs the one generator with `c` times the other exactly where `c` is the
/// product of `a` and `b` modulo the group order. The order is a prime, so the pairing of two points
/// that are not neutral has that order too.
#[verifier::external_body]
pub(crate) fn pair(q: &[u8; 96], p: &[u64; 12]) -> (res: [u8; 576])
    requires
        g2_decodes(q@),
    ensures
        res@ == pairing_value(q@, p@),
        forall|a: int, b: int, c: int|
            #[trigger] g1_at(p@, a) && #[trigger] g2_at(q@, b) ==> (res@ == #[trigger] gt_at(c)
                <==> reduced(c) == reduced(a * b)),
        forall|a: int, b: int|
            #[trigger] g1_at(p@, a) && #[trigger] g2_at(q@, b) && reduced(a) != 0 && reduced(b) != 0
                ==> has_full_order(res@, a * b),
{
    let mut a = G1Affine::default();
    a.as_mut().x.l.copy_from_slice(&p[..6]);
    a.as_mut().y.l.copy_from_slice(&p[6..]);
    let b = G2Affine::from_compressed_unchecked(q).unwrap();
    blst_fp12::miller_loop(b.as_ref(), a.as_ref()).final_exp().to_bendian()
}

} // verus!
