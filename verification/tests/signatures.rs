use mbp_channel::crypto::blind::{blind, blind_with, sign_blinded, unblind};
use mbp_channel::crypto::commitment::{commit, homomorphic_add, homomorphic_sub};
use mbp_channel::crypto::common::{SharedParameters, PP};
use mbp_channel::crypto::multisig::{
    aggregate_public_keys, aggregate_signatures, hash_to_g1, sign, verify_aggregate, KeyPair,
};
use mbp_channel::crypto::wrapper::{Fr, G1, G2};

fn scalar(n: u64) -> Fr {
    Fr::from_u64(n)
}

#[test]
fn test_blind_signature_flow() {
    let pp = PP::new();
    let msg = b"Secret Transaction Content";

    let signer_keys = KeyPair::generate(&pp);

    let blinded = blind(msg);
    println!("🔒 消息已盲化");

    let blinded_sig = sign_blinded(signer_keys.sk, blinded.point);
    println!("✍️  Signer 已盲签");

    let real_sig = unblind(blinded_sig, blinded.r);
    println!("🔓 签名已去盲");

    let is_valid = verify_aggregate(real_sig, signer_keys.pk, msg, &pp);

    assert!(is_valid, "Blind signature verification failed!");
    println!("✅ 盲签名流程验证成功！Signer 在不知情的情况下完成了签名。");
}

#[test]
fn unblinding_gives_the_plain_signature() {
    let sk = scalar(99);
    let blinded = blind_with(b"message", scalar(5));
    assert!(blinded.point == hash_to_g1(b"message") * scalar(5));
    let real_sig = unblind(sign_blinded(sk, blinded.point), scalar(5));
    assert!(real_sig == sign(sk, b"message"));
}

#[test]
fn unblinding_with_zero_gives_the_neutral_point() {
    let g = G1::generator();
    assert!(unblind(g, Fr::zero()) == g - g);
}

#[test]
fn parameters_are_the_same_for_all() {
    let pp = PP::new();
    assert_eq!(pp.g1.to_hex(), G1::generator().to_hex());
    assert_eq!(pp.g2.to_hex(), G2::generator().to_hex());
    assert_eq!(
        pp.h.to_hex(),
        "8666ebd94cbb50e5afa5b46ac320896907936c714f0d86d872f662a28af4f36c65258b13c71ffb72eca46bc270661046"
    );
    assert_eq!(SharedParameters::new().get().h.to_hex(), pp.h.to_hex());
    assert!(pp.check_provable());
    assert!(pp.h != pp.g1);
    assert!(pp.h != pp.g1 - pp.g1);
}

#[test]
fn commitment_value() {
    let pp = PP::new();
    assert_eq!(
        commit(7, scalar(5), &pp).to_hex(),
        "b1ef509d5a77483b14dee11733169756acf38efabab27c26b2920a34267b4d2f6247ad073d54884b38f247d006a00fc3"
    );
    assert!(commit(1, Fr::zero(), &pp) == pp.g1);
    assert!(commit(0, scalar(1), &pp) == pp.h);
}

#[test]
fn commitments_add_up() {
    let pp = PP::new();
    let (r, s) = (Fr::random(), Fr::random());
    let sum = homomorphic_add(commit(30, r, &pp), commit(12, s, &pp));
    assert!(sum == commit(42, r + s, &pp));
    let twice = homomorphic_add(commit(30, r, &pp), commit(30, r, &pp));
    assert!(twice == commit(60, r + r, &pp));
    let difference = homomorphic_sub(commit(30, r, &pp), commit(12, s, &pp));
    assert!(difference == commit(18, r - s, &pp));
    assert!(homomorphic_sub(sum, commit(12, s, &pp)) == commit(30, r, &pp));
}

#[test]
fn signature_is_the_hash_times_the_key() {
    assert!(sign(scalar(1), b"m") == hash_to_g1(b"m"));
    assert!(sign(scalar(3), b"m") == hash_to_g1(b"m") * scalar(3));
    assert!(hash_to_g1(b"m") == G1::hash_to_curve(b"m", b"MBPChannel-V1-SIG-G1"));
}

#[test]
fn signatures_verify_under_their_key_alone() {
    let pp = PP::new();
    let keys = KeyPair::from_secret(scalar(17), &pp);
    assert_eq!(keys.pk.to_hex(), (pp.g2 * scalar(17)).to_hex());
    let sigma = sign(keys.sk, b"tx");
    assert!(verify_aggregate(sigma, keys.pk, b"tx", &pp));
    assert!(!verify_aggregate(sigma, keys.pk, b"ty", &pp));
    assert!(!verify_aggregate(sigma, pp.g2 * scalar(18), b"tx", &pp));
    assert!(!verify_aggregate(sign(scalar(18), b"tx"), keys.pk, b"tx", &pp));
}

#[test]
fn aggregates_verify() {
    let pp = PP::new();
    let keys: Vec<KeyPair> = (0..3).map(|_| KeyPair::generate(&pp)).collect();
    let sigs: Vec<G1> = keys.iter().map(|k| sign(k.sk, b"tx")).collect();
    let pks: Vec<G2> = keys.iter().map(|k| k.pk).collect();
    let sigma = aggregate_signatures(sigs.clone()).unwrap();
    let cpk = aggregate_public_keys(pks.clone()).unwrap();
    assert!(sigma == sigs[0] + sigs[1] + sigs[2]);
    assert!(verify_aggregate(sigma, cpk, b"tx", &pp));
    let fewer = aggregate_public_keys(pks[..2].to_vec()).unwrap();
    assert!(!verify_aggregate(sigma, fewer, b"tx", &pp));
    for left_out in 0..3 {
        let mut others = pks.clone();
        others.remove(left_out);
        let cpk = aggregate_public_keys(others).unwrap();
        assert!(!verify_aggregate(sigma, cpk, b"tx", &pp));
    }
    let doubled = aggregate_signatures(vec![sigs[0], sigs[0]]).unwrap();
    assert!(verify_aggregate(doubled, pks[0] + pks[0], b"tx", &pp));
}

#[test]
fn nothing_aggregates_to_an_error() {
    assert_eq!(
        aggregate_signatures(Vec::new()).unwrap_err(),
        "Cannot aggregate empty signatures"
    );
    assert_eq!(
        aggregate_public_keys(Vec::new()).unwrap_err(),
        "Cannot aggregate empty public keys"
    );
}
