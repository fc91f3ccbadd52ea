//! Range proofs: a balance covers a payment, without the balance being shown.
use crate::crypto::backend;
use crate::crypto::backend::{
    encodings_are_flagged, g1_compressed, g1_encodes_member, g1_in_group, g1_sum, g1_times,
    g1_uncompressed, group_order,
};
use crate::crypto::commitment::commitment_to;
use crate::crypto::common::PP;
use crate::crypto::wrapper::{array_48, Fr, G1};
use crate::encoding::{
    base64_bytes, base64_decode, base64_encode, base64_round_trip, base64_text, be_value, le_value,
};
use bls_bulletproofs::{BulletproofGens, PedersenGens, RangeProof};
use blstrs::{G1Affine, G1Projective, Scalar};
use merlin::Transcript;
use vstd::arithmetic::power2::pow2;
use vstd::prelude::*;

verus! {

/// The label that the transcripts of the proofs start with.
pub const TRANSCRIPT_LABEL: &'static str = "MBPChannel_RangeProof";

/// How many generators are made for the proofs.
pub const GENERATORS: usize = 64;

/// The number of bits that a proven value has at most.
pub const RANGE_BITS: usize = 32;

/// The little-endian encoding of a scalar.
pub fn fr_to_scalar(fr: &Fr) -> (res: [u8; 32])
    ensures
        le_value(res@) == fr@,
        le_value(res@) < group_order(),
{
    fr.in_range();
    let bytes = fr.to_be_bytes();
    let mut res: [u8; 32] = [0; 32];
    let mut i: usize = 0;
    while i < 32
        invariant
            i <= 32,
            forall|j: int| 0 <= j < i ==> res@[j] == bytes@[31 - j],
        decreases 32 - i,
    {
        res[i] = bytes[31 - i];
        i += 1;
    }
    assert(res@.reverse() =~= bytes@);
    res
}

/// The compressed encoding of a point, where it is that of a point of the group.
pub fn g1_to_point(g1: &G1) -> (res: Option<[u8; 48]>)
    ensures
        match res {
            Some(bytes) => {
                &&& bytes@ == g1_compressed(g1@)
                &&& g1_encodes_member(bytes@)
            },
            None => !g1_encodes_member(g1_compressed(g1@)),
        },
        g1_encodes_member(g1_compressed(g1@)) ==> res is Some,
{
    let bytes = g1.to_compressed();
    if backend::g1_member(&bytes) {
        Some(bytes)
    } else {
        None
    }
}

/// The commitment to `value` under the generators that two encodings stand for, hidden by `r`.
pub open spec fn pedersen(g: Seq<u8>, h: Seq<u8>, value: int, r: int) -> Seq<u64> {
    g1_sum(g1_times(g1_uncompressed(g).unwrap(), value), g1_times(g1_uncompressed(h).unwrap(), r))
}

/// Bytes `start` to `start + 48` of a byte string.
pub open spec fn point_at(bytes: Seq<u8>, start: int) -> Seq<u8> {
    bytes.subrange(start, start + 48)
}

/// Whether bytes `start` to `start + 32` of a byte string encode a scalar.
pub open spec fn scalar_at(bytes: Seq<u8>, start: int) -> bool {
    le_value(bytes.subrange(start, start + 32)) < group_order()
}

/// How many points the argument in the second part of an encoded range proof has.
pub open spec fn argument_points(bytes: Seq<u8>) -> int {
    (bytes.len() - 352) / 48
}

/// Whether a byte string encodes a range proof: four points of the group, three scalars, an even
/// number of points below sixty-four, and two more scalars.
pub open spec fn is_range_proof(bytes: Seq<u8>) -> bool {
    let n = argument_points(bytes);
    &&& bytes.len() >= 352
    &&& (bytes.len() - 192) % 32 == 0
    &&& (bytes.len() - 352) % 48 == 0
    &&& n % 2 == 0
    &&& n < 64
    &&& forall|i: int| 0 <= i < 4 ==> g1_encodes_member(#[trigger] point_at(bytes, 48 * i))
    &&& forall|i: int| 0 <= i < 3 ==> #[trigger] scalar_at(bytes, 192 + 32 * i)
    &&& forall|i: int|
        0 <= i < n ==> g1_encodes_member(#[trigger] point_at(bytes, 288 + 48 * i))
    &&& forall|i: int| 0 <= i < 2 ==> #[trigger] scalar_at(bytes, 288 + 48 * n + 32 * i)
}

/// The compressed encoding of the neutral point.
pub open spec fn neutral_point() -> Seq<u8> {
    Seq::new(
        48,
        |i: int|
            if i == 0 {
                0xc0
            } else {
                0
            },
    )
}

/// Whether an encoded range proof holds the neutral point, which a verifier rejects. An honest
/// prover comes by one with negligible probability.
pub open spec fn holds_neutral_point(bytes: Seq<u8>) -> bool {
    ||| exists|i: int| 0 <= i < 4 && #[trigger] point_at(bytes, 48 * i) == neutral_point()
    ||| exists|i: int|
        0 <= i < argument_points(bytes) && #[trigger] point_at(bytes, 288 + 48 * i)
            == neutral_point()
}

/// What `bls_bulletproofs` says of an encoded range proof when it verifies it with the weight `w`
/// between the two equations that it checks at once: for a transcript label, a number of generators,
/// a number of bits, the proof, the commitment and the two generators of the commitment.
pub uninterp spec fn range_proof_holds(
    label: Seq<u8>,
    generators: int,
    bits: int,
    proof_bytes: Seq<u8>,
    comm: Seq<u8>,
    g: Seq<u8>,
    h: Seq<u8>,
    w: int,
) -> bool;

/// Whether some weight makes `accepted` what `bls_bulletproofs` says of an encoded range proof.
pub open spec fn is_range_verdict(
    accepted: bool,
    label: Seq<u8>,
    generators: int,
    bits: int,
    proof_bytes: Seq<u8>,
    comm: Seq<u8>,
    g: Seq<u8>,
    h: Seq<u8>,
) -> bool {
    exists|w: int|
        0 <= w < group_order() && accepted == #[trigger] range_proof_holds(
            label,
            generators,
            bits,
            proof_bytes,
            comm,
            g,
            h,
            w,
        )
}

/// Whether an encoded range proof is refused with every weight but zero, which drops one of the two
/// equations that are checked at once.
pub open spec fn is_range_refused(
    label: Seq<u8>,
    generators: int,
    bits: int,
    proof_bytes: Seq<u8>,
    comm: Seq<u8>,
    g: Seq<u8>,
    h: Seq<u8>,
) -> bool {
    forall|w: int|
        0 < w < group_order() ==> !#[trigger] range_proof_holds(
            label,
            generators,
            bits,
            proof_bytes,
            comm,
            g,
            h,
            w,
        )
}

/// Whether an encoded range proof is accepted with every weight.
pub open spec fn is_range_accepted(
    label: Seq<u8>,
    generators: int,
    bits: int,
    proof_bytes: Seq<u8>,
    comm: Seq<u8>,
    g: Seq<u8>,
    h: Seq<u8>,
) -> bool {
    forall|w: int|
        0 <= w < group_order() ==> #[trigger] range_proof_holds(
            label,
            generators,
            bits,
            proof_bytes,
            comm,
            g,
            h,
            w,
        )
}

/// Calls `prove_single` of `bls_bulletproofs::RangeProof` with a fresh transcript, and `to_bytes` of
/// the proof. What it proves with is drawn at random, and by a draw of negligible probability it can
/// fail. Otherwise the commitment is that to the value, and the proof encodes a range proof. Where
/// the value has no more bits than asked for and the proof holds no neutral point, verification
/// accepts it with every weight. Where the value has more bits, verification refuses it with every
/// weight but zero, or else, where a challenge that comes out of the transcript is zero or the first
/// generator is neutral, accepts it with every weight.
#[verifier::external_body]
pub(crate) fn prove_range(
    label: &'static str,
    generators: usize,
    bits: usize,
    value: u64,
    r: &[u8; 32],
    g: &[u8; 48],
    h: &[u8; 48],
) -> (res: Result<(Vec<u8>, [u8; 48]), String>)
    requires
        generators <= 64,
        le_value(r@) < group_order(),
        g1_encodes_member(g@),
        g1_encodes_member(h@),
    ensures
        match res {
            Ok((proof_bytes, comm)) => {
                &&& comm@ == g1_compressed(pedersen(g@, h@, value as int, le_value(r@) as int))
                &&& g1_encodes_member(comm@)
                &&& is_range_proof(proof_bytes@)
                &&& value < pow2(bits as nat) && !holds_neutral_point(proof_bytes@)
                    ==> forall|w: int|
                    0 <= w < group_order() ==> #[trigger] range_proof_holds(
                        vstd::utf8::encode_utf8(label@),
                        generators as int,
                        bits as int,
                        proof_bytes@,
                        comm@,
                        g@,
                        h@,
                        w,
                    )
                &&& value >= pow2(bits as nat) ==> is_range_refused(
                    vstd::utf8::encode_utf8(label@),
                    generators as int,
                    bits as int,
                    proof_bytes@,
                    comm@,
                    g@,
                    h@,
                ) || is_range_accepted(
                    vstd::utf8::encode_utf8(label@),
                    generators as int,
                    bits as int,
                    proof_bytes@,
                    comm@,
                    g@,
                    h@,
                )
            },
            Err(_) => true,
        },
{
    let base = G1Projective::from_compressed(g).unwrap();
    let pc_gens = PedersenGens { B: base, B_blinding: G1Projective::from_compressed(h).unwrap() };
    let bp_gens = BulletproofGens::new(generators, 1);
    let mut transcript = Transcript::new(label.as_bytes());
    let blinding = Scalar::from_bytes_le(r).unwrap();
    RangeProof::prove_single(&bp_gens, &pc_gens, &mut transcript, value, &blinding, bits)
        .map(|(p, c)| (p.to_bytes(), c.to_compressed()))
        .map_err(|e| e.to_string())
}

/// Calls `from_bytes` of `bls_bulletproofs::RangeProof`: it succeeds on the encodings of range proofs.
#[verifier::external_body]
fn range_proof_parses(bytes: &[u8]) -> (res: bool)
    ensures
        res == is_range_proof(bytes@),
{
    RangeProof::from_bytes(bytes).is_ok()
}

/// Calls `verify_single` of `bls_bulletproofs::RangeProof` with a fresh transcript. It draws a weight
/// at random; what it says is a function of its arguments and the weight.
#[verifier::external_body]
fn verify_range(
    label: &'static str,
    generators: usize,
    bits: usize,
    proof_bytes: &[u8],
    comm: &[u8; 48],
    g: &[u8; 48],
    h: &[u8; 48],
) -> (res: bool)
    requires
        generators <= 64,
        is_range_proof(proof_bytes@),
        g1_encodes_member(comm@),
        g1_encodes_member(g@),
        g1_encodes_member(h@),
    ensures
        is_range_verdict(
            res,
            vstd::utf8::encode_utf8(label@),
            generators as int,
            bits as int,
            proof_bytes@,
            comm@,
            g@,
            h@,
        ),
{
    let base = G1Projective::from_compressed(g).unwrap();
    let pc_gens = PedersenGens { B: base, B_blinding: G1Projective::from_compressed(h).unwrap() };
    let bp_gens = BulletproofGens::new(generators, 1);
    let mut transcript = Transcript::new(label.as_bytes());
    let target = G1Affine::from_compressed(comm).unwrap();
    let range_proof = RangeProof::from_bytes(proof_bytes).unwrap();
    range_proof.verify_single(&bp_gens, &pc_gens, &mut transcript, &target, bits).is_ok()
}

/// What verification says of a proof and a commitment under the parameters, with the weight `w`.
pub open spec fn proof_holds(proof_bytes: Seq<u8>, comm: Seq<u8>, pp: PP, w: int) -> bool {
    range_proof_holds(
        vstd::utf8::encode_utf8(TRANSCRIPT_LABEL@),
        GENERATORS as int,
        RANGE_BITS as int,
        proof_bytes,
        comm,
        g1_compressed(pp.g1@),
        g1_compressed(pp.h@),
        w,
    )
}

/// Whether verification accepts a proof for a commitment with every weight.
pub open spec fn always_holds(proof_bytes: Seq<u8>, comm: Seq<u8>, pp: PP) -> bool {
    forall|w: int| 0 <= w < group_order() ==> #[trigger] proof_holds(proof_bytes, comm, pp, w)
}

/// Whether verification refuses a proof for a commitment with every weight but zero.
pub open spec fn nearly_never_holds(proof_bytes: Seq<u8>, comm: Seq<u8>, pp: PP) -> bool {
    forall|w: int| 0 < w < group_order() ==> !#[trigger] proof_holds(proof_bytes, comm, pp, w)
}

/// The commitment to `value` under the parameters as encodings give them back, hidden by `r`.
pub open spec fn proof_commitment(value: int, r: int, pp: PP) -> Seq<u8> {
    g1_compressed(pedersen(g1_compressed(pp.g1@), g1_compressed(pp.h@), value, r))
}

/// Whether `outcome` is what the prover reports of `value`, hidden by `r`, under the parameters: what a
/// call of it came to.
pub closed spec fn prover_reports(
    value: u64,
    r: int,
    pp: PP,
    outcome: Result<(Vec<u8>, [u8; 48]), String>,
) -> bool {
    exists|r_bytes: [u8; 32], g: [u8; 48], h: [u8; 48]|
        {
            &&& le_value(r_bytes@) == r
            &&& g@ == g1_compressed(pp.g1@)
            &&& h@ == g1_compressed(pp.h@)
            &&& #[trigger] call_ensures(
                prove_range,
                (TRANSCRIPT_LABEL, GENERATORS, RANGE_BITS, value, &r_bytes, &g, &h),
                outcome,
            )
        }
}

/// Whether `res` is what proving that `v` covers `a` comes to: a failure where it does not; otherwise
/// the base64 texts of a proof and of the commitment to what is left as the prover reports them, or the
/// message of a failure that the prover reports. The proof is always accepted where what is left has 32
/// bits and the proof holds no neutral point. Where what is left has more bits, it is refused with every
/// weight but zero, or else always accepted.
pub open spec fn is_proof_outcome(
    res: Result<(String, String), String>,
    v: u64,
    a: u64,
    r: int,
    pp: PP,
) -> bool {
    match res {
        Ok((proof_b64, comm_b64)) => {
            let comm = proof_commitment(v - a, r, pp);
            &&& v >= a
            &&& exists|proof_bytes: Vec<u8>, comm_bytes: [u8; 48]|
                {
                    &&& #[trigger] prover_reports(
                        (v - a) as u64,
                        r,
                        pp,
                        Ok((proof_bytes, comm_bytes)),
                    )
                    &&& proof_b64@ == base64_text(proof_bytes@)
                    &&& comm_b64@ == base64_text(comm_bytes@)
                }
            &&& comm_b64@ == base64_text(comm)
            &&& comm.len() == 48
            &&& g1_encodes_member(comm)
            &&& base64_bytes(proof_b64@) is Some
            &&& proof_b64@ == base64_text(base64_bytes(proof_b64@).unwrap())
            &&& is_range_proof(base64_bytes(proof_b64@).unwrap())
            &&& v - a <= u32::MAX && !holds_neutral_point(base64_bytes(proof_b64@).unwrap())
                ==> always_holds(base64_bytes(proof_b64@).unwrap(), comm, pp)
            &&& v - a > u32::MAX ==> nearly_never_holds(
                base64_bytes(proof_b64@).unwrap(),
                comm,
                pp,
            ) || always_holds(base64_bytes(proof_b64@).unwrap(), comm, pp)
        },
        Err(e) => if v < a {
            e@ == "Underflow: Insufficient balance"@
        } else {
            exists|reason: String|
                {
                    &&& #[trigger] prover_reports((v - a) as u64, r, pp, Err(reason))
                    &&& e@ == "Proof generation failed: "@ + reason@
                }
        },
    }
}

/// The texts of a proof and a commitment, or the message of a failure of the prover.
pub fn proof_texts(outcome: Result<(Vec<u8>, [u8; 48]), String>) -> (res: Result<
    (String, String),
    String,
>)
    ensures
        match outcome {
            Ok((proof_bytes, comm)) => res matches Ok((proof_b64, comm_b64)) && proof_b64@
                == base64_text(proof_bytes@) && comm_b64@ == base64_text(comm@),
            Err(reason) => res matches Err(e) && e@ == "Proof generation failed: "@ + reason@,
        },
{
    match outcome {
        Ok((proof_bytes, comm)) => Ok((base64_encode(&proof_bytes), base64_encode(&comm))),
        Err(reason) => Err("Proof generation failed: ".to_owned().concat(reason.as_str())),
    }
}

/// Proves that the balance `v` covers the amount `a`: that what is left, hidden by `r`, is not
/// negative.
pub fn generate_proof(v: u64, a: u64, r_blst: &Fr, pp: &PP) -> (res: Result<
    (String, String),
    String,
>)
    requires
        pp.provable(),
    ensures
        is_proof_outcome(res, v, a, r_blst@, *pp),
        v < a ==> res is Err,
{
    let r = fr_to_scalar(r_blst);
    let g = g1_to_point(&pp.g1).unwrap();
    let h = g1_to_point(&pp.h).unwrap();
    if v < a {
        return Err("Underflow: Insufficient balance".to_owned());
    }
    let value_to_prove: u64 = v - a;
    let outcome = prove_range(TRANSCRIPT_LABEL, GENERATORS, RANGE_BITS, value_to_prove, &r, &g, &h);
    proof {
        assert(prover_reports(value_to_prove, r_blst@, *pp, outcome));
        vstd::arithmetic::power2::lemma2_to64();
        if outcome is Ok {
            let proof_bytes = outcome.unwrap().0@;
            let comm = outcome.unwrap().1@;
            base64_round_trip(proof_bytes);
            assert forall|w: int|
                is_range_accepted(
                    vstd::utf8::encode_utf8(TRANSCRIPT_LABEL@),
                    GENERATORS as int,
                    RANGE_BITS as int,
                    proof_bytes,
                    comm,
                    g@,
                    h@,
                ) && 0 <= w < group_order() implies #[trigger] proof_holds(
                proof_bytes,
                comm,
                *pp,
                w,
            ) by {}
            assert forall|w: int|
                is_range_refused(
                    vstd::utf8::encode_utf8(TRANSCRIPT_LABEL@),
                    GENERATORS as int,
                    RANGE_BITS as int,
                    proof_bytes,
                    comm,
                    g@,
                    h@,
                ) && 0 < w < group_order() implies !#[trigger] proof_holds(
                proof_bytes,
                comm,
                *pp,
                w,
            ) by {}
        }
    }
    proof_texts(outcome)
}

/// Proves as `generate_proof` does where the parameters allow it; `None` where they do not.
pub fn try_generate_proof(v: u64, a: u64, r_blst: &Fr, pp: &PP) -> (res: Option<
    Result<(String, String), String>,
>)
    ensures
        match res {
            Some(outcome) => pp.provable() && is_proof_outcome(outcome, v, a, r_blst@, *pp),
            None => !pp.provable(),
        },
{
    if pp.check_provable() {
        Some(generate_proof(v, a, r_blst, pp))
    } else {
        None
    }
}

/// Whether the two texts that a verifier gets are the base64 texts of a range proof and of a point of
/// the group.
pub open spec fn proof_decodes(proof_b64: Seq<char>, comm_b64: Seq<char>) -> bool {
    &&& base64_bytes(proof_b64) is Some
    &&& is_range_proof(base64_bytes(proof_b64).unwrap())
    &&& base64_bytes(comm_b64) is Some
    &&& base64_bytes(comm_b64).unwrap().len() == 48
    &&& g1_encodes_member(base64_bytes(comm_b64).unwrap())
}

/// Whether `accepted` is what verification can say of two texts: nothing that does not decode is
/// accepted, and otherwise some weight gives the verdict.
pub open spec fn is_proof_verdict(
    accepted: bool,
    proof_b64: Seq<char>,
    comm_b64: Seq<char>,
    pp: PP,
) -> bool {
    if proof_decodes(proof_b64, comm_b64) {
        exists|w: int|
            0 <= w < group_order() && accepted == #[trigger] proof_holds(
                base64_bytes(proof_b64).unwrap(),
                base64_bytes(comm_b64).unwrap(),
                pp,
                w,
            )
    } else {
        !accepted
    }
}

/// Verifies that a commitment is to a value of 32 bits. The amount is not looked at: the proof is
/// about what is left.
pub fn verify_proof(proof_b64: &str, c_op_str: &str, _a: u64, pp: &PP) -> (res: bool)
    requires
        proof_decodes(proof_b64@, c_op_str@) ==> pp.provable(),
    ensures
        is_proof_verdict(res, proof_b64@, c_op_str@, *pp),
{
    let proof_bytes = match base64_decode(proof_b64) {
        Some(bytes) => bytes,
        None => return false,
    };
    if !range_proof_parses(&proof_bytes) {
        return false;
    }
    let c_bytes = match base64_decode(c_op_str) {
        Some(bytes) => bytes,
        None => return false,
    };
    let arr = match array_48(&c_bytes) {
        Some(arr) => arr,
        None => return false,
    };
    if !backend::g1_member(&arr) {
        return false;
    }
    let g = g1_to_point(&pp.g1).unwrap();
    let h = g1_to_point(&pp.h).unwrap();
    let res = verify_range(TRANSCRIPT_LABEL, GENERATORS, RANGE_BITS, &proof_bytes, &arr, &g, &h);
    proof {
        let w = choose|w: int|
            0 <= w < group_order() && res == #[trigger] range_proof_holds(
                vstd::utf8::encode_utf8(TRANSCRIPT_LABEL@),
                GENERATORS as int,
                RANGE_BITS as int,
                proof_bytes@,
                arr@,
                g@,
                h@,
                w,
            );
        assert(0 <= w < group_order());
        assert(res == proof_holds(proof_bytes@, arr@, *pp, w));
        assert(base64_bytes(proof_b64@).unwrap() == proof_bytes@);
        assert(base64_bytes(c_op_str@).unwrap() == arr@);
    }
    res
}

/// Verifies as `verify_proof` does where the parameters allow it; `None` where they do not.
pub fn try_verify_proof(proof_b64: &str, c_op_str: &str, a: u64, pp: &PP) -> (res: Option<bool>)
    ensures
        match res {
            Some(accepted) => pp.provable() && is_proof_verdict(
                accepted,
                proof_b64@,
                c_op_str@,
                *pp,
            ),
            None => !pp.provable(),
        },
{
    if pp.check_provable() {
        Some(verify_proof(proof_b64, c_op_str, a, pp))
    } else {
        None
    }
}

impl PP {
    /// Whether range proofs can be made and verified under the parameters.
    pub fn check_provable(&self) -> (res: bool)
        ensures
            res == self.provable(),
    {
        g1_to_point(&self.g1).is_some() && g1_to_point(&self.h).is_some()
    }
}

/// A proof that was generated for a balance that covers the amount is accepted, where what is left
/// has 32 bits and the proof holds no neutral point.
pub proof fn generated_proof_is_accepted(
    generated: Result<(String, String), String>,
    v: u64,
    a: u64,
    r: int,
    pp: PP,
    accepted: bool,
)
    requires
        is_proof_outcome(generated, v, a, r, pp),
        generated is Ok,
        v - a <= u32::MAX,
        !holds_neutral_point(base64_bytes(generated.unwrap().0@).unwrap()),
        is_proof_verdict(accepted, generated.unwrap().0@, generated.unwrap().1@, pp),
    ensures
        accepted,
{
    let comm = proof_commitment(v - a, r, pp);
    base64_round_trip(comm);
}

/// The commitment that comes with a proof is the one that committing to what is left gives.
pub proof fn proof_commitment_is_commitment(value: int, r: int, pp: PP)
    requires
        pp.in_group(),
    ensures
        proof_commitment(value, r, pp) == g1_compressed(commitment_to(value, r, pp)),
{
}

/// A proof that was generated for a balance that leaves more than 32 bits is refused with every weight
/// but zero. Left out is a proof that verification accepts whatever the weight, which takes a challenge
/// of zero.
pub proof fn large_rest_is_refused(
    generated: Result<(String, String), String>,
    v: u64,
    a: u64,
    r: int,
    pp: PP,
    w: int,
)
    requires
        is_proof_outcome(generated, v, a, r, pp),
        generated is Ok,
        v - a > u32::MAX,
        !always_holds(
            base64_bytes(generated.unwrap().0@).unwrap(),
            base64_bytes(generated.unwrap().1@).unwrap(),
            pp,
        ),
        0 < w < group_order(),
    ensures
        !proof_holds(
            base64_bytes(generated.unwrap().0@).unwrap(),
            base64_bytes(generated.unwrap().1@).unwrap(),
            pp,
            w,
        ),
{
    base64_round_trip(proof_commitment(v - a, r, pp));
}

/// One refusal with whatever weight settles it: a proof that was generated for a balance that leaves
/// more than 32 bits, and that verification refuses once, is refused with every weight but zero.
pub proof fn one_refusal_settles_a_large_rest(
    generated: Result<(String, String), String>,
    v: u64,
    a: u64,
    r: int,
    pp: PP,
    accepted: bool,
    w: int,
)
    requires
        is_proof_outcome(generated, v, a, r, pp),
        generated is Ok,
        v - a > u32::MAX,
        is_proof_verdict(accepted, generated.unwrap().0@, generated.unwrap().1@, pp),
        !accepted,
        0 < w < group_order(),
    ensures
        !proof_holds(
            base64_bytes(generated.unwrap().0@).unwrap(),
            base64_bytes(generated.unwrap().1@).unwrap(),
            pp,
            w,
        ),
{
    base64_round_trip(proof_commitment(v - a, r, pp));
}

/// A proof whose points lack the flag of a compressed encoding is refused: such are the texts that start
/// with the base64 digits of a byte below 128.
pub proof fn proof_without_flag_is_refused(
    proof_b64: Seq<char>,
    comm_b64: Seq<char>,
    pp: PP,
    accepted: bool,
    i: int,
)
    requires
        base64_bytes(proof_b64) matches Some(bytes) && 48 * i + 48 <= bytes.len() && bytes[48 * i]
            < 0x80,
        0 <= i < 4,
        is_proof_verdict(accepted, proof_b64, comm_b64, pp),
    ensures
        !accepted,
{
    let bytes = base64_bytes(proof_b64).unwrap();
    encodings_are_flagged(point_at(bytes, 48 * i));
}

/// A commitment that lacks the flag of a compressed encoding is refused.
pub proof fn commitment_without_flag_is_refused(
    proof_b64: Seq<char>,
    comm_b64: Seq<char>,
    pp: PP,
    accepted: bool,
)
    requires
        base64_bytes(comm_b64) matches Some(bytes) && bytes.len() > 0 && bytes[0] < 0x80,
        is_proof_verdict(accepted, proof_b64, comm_b64, pp),
    ensures
        !accepted,
{
    encodings_are_flagged(base64_bytes(comm_b64).unwrap());
}

/// A balance that covers the amount is proved: proving fails where the balance is smaller, and otherwise
/// where the prover itself fails on what is left, with the reason that the prover gives. In every other
/// case, nothing left among them, it succeeds with what the prover made.
pub(crate) proof fn covered_amount_is_proved(
    v: u64,
    a: u64,
    r: &Fr,
    pp: &PP,
    res: Result<(String, String), String>,
)
    requires
        call_ensures(generate_proof, (v, a, r, pp), res),
    ensures
        v < a ==> (res matches Err(e) && e@ == "Underflow: Insufficient balance"@),
        v >= a ==> exists|
            rest: u64,
            r_bytes: [u8; 32],
            g: [u8; 48],
            h: [u8; 48],
            outcome: Result<(Vec<u8>, [u8; 48]), String>,
        |
            {
                &&& rest + a == v
                &&& le_value(r_bytes@) == r@
                &&& g@ == g1_compressed(pp.g1@)
                &&& h@ == g1_compressed(pp.h@)
                &&& #[trigger] call_ensures(
                    prove_range,
                    ("MBPChannel_RangeProof", 64usize, 32usize, rest, &r_bytes, &g, &h),
                    outcome,
                )
                &&& match outcome {
                    Ok((proof_bytes, comm)) => res matches Ok((proof_b64, comm_b64)) && proof_b64@
                        == base64_text(proof_bytes@) && comm_b64@ == base64_text(comm@),
                    Err(reason) => res matches Err(e) && e@ == "Proof generation failed: "@
                        + reason@,
                }
            },
{
    if v >= a {
        let rest: u64 = (v - a) as u64;
        let outcome = match res {
            Ok((proof_b64, comm_b64)) => {
                let (proof_bytes, comm) = choose|proof_bytes: Vec<u8>, comm: [u8; 48]|
                    {
                        &&& #[trigger] prover_reports(rest, r@, *pp, Ok((proof_bytes, comm)))
                        &&& proof_b64@ == base64_text(proof_bytes@)
                        &&& comm_b64@ == base64_text(comm@)
                    };
                Ok::<(Vec<u8>, [u8; 48]), String>((proof_bytes, comm))
            },
            Err(e) => {
                let reason = choose|reason: String|
                    {
                        &&& #[trigger] prover_reports(rest, r@, *pp, Err(reason))
                        &&& e@ == "Proof generation failed: "@ + reason@
                    };
                Err::<(Vec<u8>, [u8; 48]), String>(reason)
            },
        };
        assert(prover_reports(rest, r@, *pp, outcome));
        let (r_bytes, g, h) = choose|r_bytes: [u8; 32], g: [u8; 48], h: [u8; 48]|
            {
                &&& le_value(r_bytes@) == r@
                &&& g@ == g1_compressed(pp.g1@)
                &&& h@ == g1_compressed(pp.h@)
                &&& #[trigger] call_ensures(
                    prove_range,
                    (TRANSCRIPT_LABEL, GENERATORS, RANGE_BITS, rest, &r_bytes, &g, &h),
                    outcome,
                )
            };
        assert(call_ensures(
            prove_range,
            ("MBPChannel_RangeProof", 64usize, 32usize, rest, &r_bytes, &g, &h),
            outcome,
        ));
    }
}

/// Verification says what the verifier says: it refuses texts that are not the base64 texts of an
/// encoded range proof and of a point of the group, and of all others it gives the verdict of the
/// verifier, for values of 32 bits under the two generators of the parameters, with some weight. The
/// amount plays no part.
pub proof fn verdict_is_that_of_the_verifier(
    proof_b64: &str,
    comm_b64: &str,
    a: u64,
    pp: &PP,
    accepted: bool,
)
    requires
        call_ensures(verify_proof, (proof_b64, comm_b64, a, pp), accepted),
    ensures
        match (base64_bytes(proof_b64@), base64_bytes(comm_b64@)) {
            (Some(bytes), Some(comm)) => if is_range_proof(bytes) && comm.len() == 48
                && g1_encodes_member(comm) {
                exists|w: int|
                    0 <= w < group_order() && accepted == #[trigger] range_proof_holds(
                        vstd::utf8::encode_utf8("MBPChannel_RangeProof"@),
                        64,
                        32,
                        bytes,
                        comm,
                        g1_compressed(pp.g1@),
                        g1_compressed(pp.h@),
                        w,
                    )
            } else {
                !accepted
            },
            _ => !accepted,
        },
{
    if proof_decodes(proof_b64@, comm_b64@) {
        let bytes = base64_bytes(proof_b64@).unwrap();
        let comm = base64_bytes(comm_b64@).unwrap();
        let w = choose|w: int|
            0 <= w < group_order() && accepted == #[trigger] proof_holds(bytes, comm, *pp, w);
        assert(accepted == range_proof_holds(
            vstd::utf8::encode_utf8("MBPChannel_RangeProof"@),
            64,
            32,
            bytes,
            comm,
            g1_compressed(pp.g1@),
            g1_compressed(pp.h@),
            w,
        ));
    }
}

/// A generated proof is verified with the parameters that it was made with: it is accepted whatever the
/// amount that the verifier is told, for every balance that leaves 32 bits, unless it holds the neutral
/// point. The commitment beside it opens to what is left.
pub proof fn generated_proof_is_verified(
    v: u64,
    a: u64,
    r: &Fr,
    pp: &PP,
    proof_b64: String,
    comm_b64: String,
    shown_proof: &str,
    shown_comm: &str,
    b: u64,
    accepted: bool,
)
    requires
        pp.in_group(),
        call_ensures(generate_proof, (v, a, r, pp), Ok((proof_b64, comm_b64))),
        shown_proof@ == proof_b64@,
        shown_comm@ == comm_b64@,
        call_ensures(verify_proof, (shown_proof, shown_comm, b, pp), accepted),
        !holds_neutral_point(base64_bytes(proof_b64@).unwrap()),
        v - a < 0x1_0000_0000,
    ensures
        v >= a,
        accepted,
        base64_bytes(comm_b64@) == Some(
            g1_compressed(g1_sum(g1_times(pp.g1@, v - a), g1_times(pp.h@, r@))),
        ),
{
    generated_proof_is_accepted(Ok((proof_b64, comm_b64)), v, a, r@, *pp, accepted);
    proof_commitment_is_commitment(v - a, r@, *pp);
    base64_round_trip(proof_commitment(v - a, r@, *pp));
}

/// The encoding that the prover gets of a scalar stands for the scalar, least significant byte first.
pub proof fn scalar_encoding_is_little_endian(fr: &Fr, res: [u8; 32])
    requires
        call_ensures(fr_to_scalar, (fr,), res),
    ensures
        be_value(res@.reverse()) == fr@,
{
}

/// The prover gets every point of the group, in its compressed encoding.
pub proof fn group_points_are_handed_on(g1: &G1, res: Option<[u8; 48]>)
    requires
        call_ensures(g1_to_point, (g1,), res),
        g1_in_group(g1@),
        g1_uncompressed(g1_compressed(g1@)) == Some(g1@),
    ensures
        res matches Some(bytes) && bytes@ == g1_compressed(g1@),
{
}

/// Where the parameters allow proofs, and only there, the functions that try give what those give that
/// do not: a failure where the amount is not covered, and otherwise what the prover reports.
pub proof fn trying_is_proving(
    v: u64,
    a: u64,
    r: &Fr,
    pp: &PP,
    tried: Option<Result<(String, String), String>>,
    provable: bool,
)
    requires
        call_ensures(try_generate_proof, (v, a, r, pp), tried),
        call_ensures(PP::check_provable, (pp,), provable),
    ensures
        provable <==> g1_encodes_member(g1_compressed(pp.g1@)) && g1_encodes_member(
            g1_compressed(pp.h@),
        ),
        tried is Some <==> provable,
        tried is Some && v < a ==> tried.unwrap() is Err && tried.unwrap()->Err_0@
            == "Underflow: Insufficient balance"@,
        tried is Some && v >= a && tried.unwrap() is Err ==> exists|reason: String|
            #[trigger] prover_reports((v - a) as u64, r@, *pp, Err(reason))
                && tried.unwrap()->Err_0@ == "Proof generation failed: "@ + reason@,
        tried is Some && tried.unwrap() is Ok ==> v >= a && exists|
            proof_bytes: Vec<u8>,
            comm: [u8; 48],
        |
            #[trigger] prover_reports((v - a) as u64, r@, *pp, Ok((proof_bytes, comm)))
                && tried.unwrap()->Ok_0.0@ == base64_text(proof_bytes@)
                && tried.unwrap()->Ok_0.1@ == base64_text(comm@),
{
}

/// Where the parameters allow proofs, and only there, a proof can be tried: it is accepted where it holds
/// with some weight, refused where it fails with some weight, and refused where it does not decode.
pub proof fn trying_is_verifying(
    proof_b64: &str,
    comm_b64: &str,
    a: u64,
    pp: &PP,
    tried: Option<bool>,
)
    requires
        call_ensures(try_verify_proof, (proof_b64, comm_b64, a, pp), tried),
    ensures
        tried is Some <==> pp.provable(),
        tried == Some(true) ==> base64_bytes(proof_b64@) is Some && is_range_proof(
            base64_bytes(proof_b64@).unwrap(),
        ) && base64_bytes(comm_b64@) is Some && base64_bytes(comm_b64@).unwrap().len() == 48
            && g1_encodes_member(base64_bytes(comm_b64@).unwrap()) && exists|w: int|
            0 <= w < group_order() && #[trigger] proof_holds(
                base64_bytes(proof_b64@).unwrap(),
                base64_bytes(comm_b64@).unwrap(),
                *pp,
                w,
            ),
        tried == Some(false) && base64_bytes(proof_b64@) is Some && is_range_proof(
            base64_bytes(proof_b64@).unwrap(),
        ) && base64_bytes(comm_b64@) is Some && base64_bytes(comm_b64@).unwrap().len() == 48
            && g1_encodes_member(base64_bytes(comm_b64@).unwrap()) ==> !always_holds(
            base64_bytes(proof_b64@).unwrap(),
            base64_bytes(comm_b64@).unwrap(),
            *pp,
        ),
{
}

/// What the prover reports is passed on in base64, and its failures with what failed before them.
pub proof fn reports_are_passed_on(
    outcome: Result<(Vec<u8>, [u8; 48]), String>,
    res: Result<(String, String), String>,
)
    requires
        call_ensures(proof_texts, (outcome,), res),
    ensures
        outcome is Ok <==> res is Ok,
        outcome is Ok ==> res->Ok_0.0@ == base64_text(outcome->Ok_0.0@) && res->Ok_0.1@
            == base64_text(outcome->Ok_0.1@),
        outcome is Err ==> res->Err_0@ == "Proof generation failed: "@ + outcome->Err_0@,
{
}

} // verus!
