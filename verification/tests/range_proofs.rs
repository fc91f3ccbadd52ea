use mbp_channel::crypto::commitment::commit;
use mbp_channel::crypto::common::PP;
use mbp_channel::crypto::range_proof::{
    fr_to_scalar, g1_to_point, generate_proof, proof_texts, try_generate_proof, try_verify_proof,
    verify_proof,
};
use mbp_channel::crypto::wrapper::{Fr, G1};
use mbp_channel::encoding::base64_decode;

fn point_outside_the_group() -> G1 {
    G1::from_hex(&format!("80{}04", "00".repeat(46))).unwrap()
}

#[test]
fn test_bridge_consistency() {
    let _pp = PP::new();

    let r_blst = Fr::random();

    let scalar = fr_to_scalar(&r_blst);

    let scalar_bytes = scalar;

    assert!(scalar_bytes.iter().any(|&x| x != 0), "Scalar shouldn't be zero");
}

#[test]
fn test_valid_proof_generation_and_verification() {
    let pp = PP::new();
    let current_balance = 100u64;
    let transfer_amount = 40u64;
    let r = Fr::random();

    let result = generate_proof(current_balance, transfer_amount, &r, &pp);
    assert!(result.is_ok(), "Proof generation should succeed");

    let (proof_b64, comm_b64) = result.unwrap();
    println!("Proof Len: {}", proof_b64.len());
    println!("Comm: {}", comm_b64);

    let is_valid = verify_proof(&proof_b64, &comm_b64, transfer_amount, &pp);
    assert!(is_valid, "Valid proof should verify successfully");
}

#[test]
fn test_insufficient_balance() {
    let pp = PP::new();
    let current_balance = 10u64;
    let transfer_amount = 20u64;
    let r = Fr::random();

    let result = generate_proof(current_balance, transfer_amount, &r, &pp);
    assert!(result.is_err(), "Should fail when balance is insufficient");
    assert_eq!(result.unwrap_err(), "Underflow: Insufficient balance");
}

#[test]
fn test_invalid_proof_tampering() {
    let pp = PP::new();
    let (proof_b64, comm_b64) = generate_proof(100, 10, &Fr::random(), &pp).unwrap();

    let mut tampered_proof = proof_b64.clone();
    tampered_proof.replace_range(0..4, "AAAA");

    let is_valid = verify_proof(&tampered_proof, &comm_b64, 10, &pp);
    assert!(!is_valid, "Tampered proof should fail");
}

#[test]
fn scalar_bytes_are_little_endian() {
    let mut expected = [0u8; 32];
    expected[0] = 2;
    expected[1] = 1;
    assert_eq!(fr_to_scalar(&Fr::from_u64(0x0102)), expected);
}

#[test]
fn proof_comes_with_the_commitment_to_the_rest() {
    let pp = PP::new();
    let r = Fr::random();
    let (proof_b64, comm_b64) = generate_proof(100, 40, &r, &pp).unwrap();
    assert_eq!(base64_decode(&proof_b64).unwrap().len(), 832);
    assert_eq!(
        base64_decode(&comm_b64).unwrap(),
        commit(60, r, &pp).to_compressed().to_vec()
    );
}

#[test]
fn proof_is_for_its_commitment_alone() {
    let pp = PP::new();
    let (proof_b64, _) = generate_proof(5, 0, &Fr::from_u64(1), &pp).unwrap();
    let (_, other) = generate_proof(5, 0, &Fr::from_u64(2), &pp).unwrap();
    assert!(!verify_proof(&proof_b64, &other, 0, &pp));
}

#[test]
fn texts_that_do_not_decode_are_rejected() {
    let pp = PP::new();
    let (proof_b64, comm_b64) = generate_proof(5, 0, &Fr::from_u64(1), &pp).unwrap();
    assert!(!verify_proof("*", &comm_b64, 0, &pp));
    assert!(!verify_proof("", &comm_b64, 0, &pp));
    assert!(!verify_proof(&proof_b64, "*", 0, &pp));
    assert!(!verify_proof(&proof_b64, "AAAA", 0, &pp));
    let zeros = "A".repeat(64);
    assert!(!verify_proof(&proof_b64, &zeros, 0, &pp));
    assert!(!verify_proof(&proof_b64[4..], &comm_b64, 0, &pp));
}

#[test]
fn parameters_outside_the_group_are_turned_down() {
    let mut pp = PP::new();
    assert!(try_verify_proof("", "", 0, &pp) == Some(false));
    assert!(try_generate_proof(1, 2, &Fr::zero(), &pp).unwrap().is_err());
    assert_eq!(g1_to_point(&pp.h).unwrap(), pp.h.to_compressed());
    pp.h = point_outside_the_group();
    assert!(g1_to_point(&pp.h).is_none());
    assert!(!pp.check_provable());
    assert!(try_generate_proof(2, 1, &Fr::zero(), &pp).is_none());
    assert!(try_verify_proof("", "", 0, &pp).is_none());
    assert!(!verify_proof("", "", 0, &pp));
}

#[test]
fn texts_of_a_proof() {
    let (proof_b64, comm_b64) = proof_texts(Ok((vec![1, 2, 3, 4], [0u8; 48]))).unwrap();
    assert_eq!(proof_b64, "AQIDBA==");
    assert_eq!(comm_b64, "A".repeat(64));
    assert_eq!(
        proof_texts(Err("no".to_string())).unwrap_err(),
        "Proof generation failed: no"
    );
}

#[test]
fn proofs_of_large_rests_are_refused() {
    let pp = PP::new();
    for rest in [1u64 << 32, u64::MAX] {
        let (proof_b64, comm_b64) = generate_proof(rest, 0, &Fr::from_u64(7), &pp).unwrap();
        assert!(!verify_proof(&proof_b64, &comm_b64, 0, &pp));
    }
    let rest = u32::MAX as u64;
    let (proof_b64, comm_b64) = generate_proof(rest, 0, &Fr::from_u64(7), &pp).unwrap();
    assert!(verify_proof(&proof_b64, &comm_b64, 0, &pp));
}

#[test]
fn commitments_without_a_flag_are_refused() {
    let pp = PP::new();
    let (proof_b64, _) = generate_proof(5, 0, &Fr::from_u64(7), &pp).unwrap();
    assert!(!verify_proof(&proof_b64, &"A".repeat(64), 0, &pp));
}
