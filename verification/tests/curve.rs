use mbp_channel::crypto::wrapper::{fp12_eq, pairing, Fr, G1, G2};

const ORDER: &str = "73eda753299d7d483339d80809a1d80553bda402fffe5bfeffffffff00000001";
const G1_GENERATOR: &str = "97f1d3a73197d7942695638c4fa9ac0fc3688c4f9774b905a14e3a3f171bac586c55e83ff97a1aeffb3af00adb22c6bb";
const G1_DOUBLE: &str = "a572cbea904d67468808c8eb50a9450c9721db309128012543902d0ac358a62ae28f75bb8f1c7c42c39a8c5529bf0f4e";
const G1_NEGATED: &str = "b7f1d3a73197d7942695638c4fa9ac0fc3688c4f9774b905a14e3a3f171bac586c55e83ff97a1aeffb3af00adb22c6bb";
const G1_NEUTRAL: &str = "c00000000000000000000000000000000000000000000000000000000000000000000000000000000000000000000000";
const G2_GENERATOR: &str = "93e02b6052719f607dacd3a088274f65596bd0d09920b61ab5da61bbdc7f5049334cf11213945d57e5ac7d055d042b7e024aa2b2f08f0a91260805272dc51051c6e47ad4fa403b02b4510b647ae3d1770bac0326a805bbefd48056c8c121bdb8";

fn scalar(n: u64) -> Fr {
    Fr::from_u64(n)
}

#[test]
fn scalars_add_subtract_and_multiply() {
    assert!(scalar(7) + scalar(5) == scalar(12));
    assert!(scalar(7) - scalar(5) == scalar(2));
    assert!(scalar(7) * scalar(5) == scalar(35));
    assert!(scalar(7) != scalar(5));
}

#[test]
fn scalars_wrap_at_the_order() {
    let minus_one = scalar(0) - scalar(1);
    assert_eq!(
        minus_one.to_hex(),
        "73eda753299d7d483339d80809a1d80553bda402fffe5bfeffffffff00000000"
    );
    assert!(minus_one + scalar(1) == Fr::zero());
    assert!(minus_one * minus_one == scalar(1));
}

#[test]
fn inverse_of_a_scalar() {
    assert_eq!(
        scalar(2).inverse().to_hex(),
        "39f6d3a994cebea4199cec0404d0ec02a9ded2017fff2dff7fffffff80000001"
    );
    assert!(scalar(12345).inverse() * scalar(12345) == scalar(1));
    assert!(Fr::zero().inverse() == Fr::zero());
}

#[test]
fn scalar_text_is_big_endian() {
    assert_eq!(
        scalar(0x0102).to_hex(),
        "0000000000000000000000000000000000000000000000000000000000000102"
    );
    assert_eq!(scalar(u64::MAX).to_hex()[48..], *"ffffffffffffffff");
    assert_eq!(scalar(1).debug_text(), format!("Fr({})", scalar(1).to_hex()));
}

#[test]
fn scalar_text_is_reduced() {
    assert!(Fr::from_hex(ORDER).unwrap() == Fr::zero());
    let top = "ff".repeat(32);
    assert_eq!(
        Fr::from_hex(&top).unwrap().to_hex(),
        "1824b159acc5056f998c4fefecbc4ff55884b7fa0003480200000001fffffffd"
    );
    let mixed = "00000000000000000000000000000000000000000000000000000000DeadBeef";
    assert!(Fr::from_hex(mixed).unwrap() == scalar(0xdeadbeef));
}

#[test]
fn scalar_text_errors() {
    assert_eq!(Fr::from_hex("0102").unwrap_err(), "Invalid Fr hex length");
    assert_eq!(Fr::from_hex("012").unwrap_err(), "Odd number of digits");
    assert_eq!(
        Fr::from_hex("zz").unwrap_err(),
        "Invalid character 'z' at position 0"
    );
}

#[test]
fn scalar_byte_orders() {
    let mut bytes = [0u8; 32];
    bytes[0] = 2;
    bytes[1] = 1;
    assert!(Fr::from_le_bytes(&bytes) == scalar(0x0102));
    bytes.reverse();
    assert!(Fr::from_be_bytes(&bytes) == scalar(0x0102));
    assert_eq!(scalar(0x0102).to_be_bytes(), bytes);
}

#[test]
fn random_scalars_differ() {
    assert!(Fr::random() != Fr::random());
    let r = Fr::random();
    assert!(Fr::from_hex(&r.to_hex()).unwrap() == r);
}

#[test]
fn generators() {
    assert_eq!(G1::generator().to_hex(), G1_GENERATOR);
    assert_eq!(G2::generator().to_hex(), G2_GENERATOR);
    assert_eq!(G1::generator().debug_text(), format!("G1({})", G1_GENERATOR));
    assert_eq!(G2::generator().debug_text(), format!("G2({})", G2_GENERATOR));
}

#[test]
fn points_of_the_first_group_add_up() {
    let g = G1::generator();
    assert_eq!((g + g).to_hex(), G1_DOUBLE);
    assert!(g + g == g * scalar(2));
    assert!((g * scalar(3)) + (g * scalar(4)) == g * scalar(7));
    assert_eq!((g - g).to_hex(), G1_NEUTRAL);
    assert_eq!((g * (scalar(0) - scalar(1))).to_hex(), G1_NEGATED);
    assert_eq!((g - (g + g)).to_hex(), G1_NEGATED);
    assert!((g - g) + g == g);
    assert!(g != g + g);
}

#[test]
fn points_of_the_second_group_add_up() {
    let g = G2::generator();
    assert_eq!((g + g).to_hex(), (g * scalar(2)).to_hex());
    assert_eq!(
        ((g * scalar(9)) - (g * scalar(4))).to_hex(),
        (g * scalar(5)).to_hex()
    );
    assert_ne!((g + g).to_hex(), g.to_hex());
}

#[test]
fn point_texts_are_read_back() {
    let p = G1::generator() * scalar(77);
    assert!(G1::from_hex(&p.to_hex()).unwrap() == p);
    assert!(G1::from_hex(&p.to_hex().to_uppercase()).unwrap() == p);
    assert!(G1::from_hex(G1_NEUTRAL).unwrap() == p - p);
    let q = G2::generator() * scalar(77);
    assert_eq!(G2::from_hex(&q.to_hex()).unwrap().to_hex(), q.to_hex());
}

#[test]
fn point_text_errors() {
    assert_eq!(G1::from_hex("00").unwrap_err(), "Invalid G1 hex length");
    assert_eq!(
        G1::from_hex(&"00".repeat(48)).unwrap_err(),
        "G1 uncompress failed"
    );
    assert_eq!(G1::from_hex("0").unwrap_err(), "Odd number of digits");
    assert_eq!(G2::from_hex("00").unwrap_err(), "Invalid G2 hex length");
    assert_eq!(
        G2::from_hex(&"00".repeat(96)).unwrap_err(),
        "G2 uncompress failed"
    );
    assert_eq!(
        G2::from_hex("g0").unwrap_err(),
        "Invalid character 'g' at position 0"
    );
}

#[test]
fn points_outside_the_group_are_read_and_added() {
    let text = format!("80{}04", "00".repeat(46));
    let p = G1::from_hex(&text).unwrap();
    assert_eq!(p.to_hex(), text);
    assert_eq!(
        (p + p).to_hex(),
        "861e5e9176f0eaf720bb36853d02bf41bd493ef21b2e5ec39fcf409e5829a353cafb4b4afc8c3c3c2bc3878787877374"
    );
    assert!((p + G1::generator()) - G1::generator() == p);
}

#[test]
fn hashing_to_the_first_group() {
    let p = G1::hash_to_curve(b"", b"QUUX-V01-CS02-with-BLS12381G1_XMD:SHA-256_SSWU_RO_");
    assert_eq!(
        p.to_hex(),
        "852926add2207b76ca4fa57a8734416c8dc95e24501772c814278700eed6d1e4e8cf62d9c09db0fac349612b759e79a1"
    );
    let q = G1::hash_to_curve(b"", b"another tag");
    assert!(p != q);
}

#[test]
fn pairing_is_bilinear() {
    let (g1, g2) = (G1::generator(), G2::generator());
    let left = pairing(g2 * scalar(6), g1 * scalar(7));
    let right = pairing(g2, g1 * scalar(42));
    assert!(fp12_eq(&left, &right));
    assert!(!fp12_eq(&left, &pairing(g2, g1 * scalar(41))));
    let one = pairing(g2, g1 - g1);
    assert!(fp12_eq(&one, &pairing(g2 - g2, g1)));
    assert!(!fp12_eq(&one, &pairing(g2, g1)));
}

#[test]
fn pairing_tells_scalars_apart() {
    let (p, q) = (G1::generator() * scalar(5), G2::generator() * scalar(9));
    let value = pairing(q, p * scalar(3));
    assert!(fp12_eq(&value, &pairing(q * scalar(3), p)));
    assert!(fp12_eq(&value, &pairing(q, p * (scalar(4) - scalar(1)))));
    for other in [0, 1, 2, 4] {
        assert!(!fp12_eq(&value, &pairing(q, p * scalar(other))));
    }
}

#[test]
fn texts_of_points_by_their_coordinate() {
    for (x, on_curve) in [(0, false), (1, false), (2, false), (3, false), (4, true), (5, true)] {
        for flags in ["80", "a0"] {
            let text = format!("{}{}{:02x}", flags, "00".repeat(46), x);
            assert_eq!(G1::from_hex(&text).is_ok(), on_curve);
        }
        let text = format!("00{}{:02x}", "00".repeat(46), x);
        assert!(G1::from_hex(&text).is_err());
    }
    for (x, on_curve) in [(0, false), (1, false), (2, true), (3, false), (4, true), (6, false)] {
        let text = format!("80{}{:02x}", "00".repeat(94), x);
        assert_eq!(G2::from_hex(&text).is_ok(), on_curve);
        let text = format!("00{}{:02x}", "00".repeat(94), x);
        assert!(G2::from_hex(&text).is_err());
    }
}

#[test]
fn texts_of_points_are_canonical() {
    let modulus = "1a0111ea397fe69a4b1ba7b6434bacd764774b84f38512bf6730d2a0f6b0f6241eabfffeb153ffffb9feffffffffaaab";
    assert!(G1::from_hex(&format!("9{}", &modulus[1..])).is_err());
    let four_more = format!("9{}af", &modulus[1..94]);
    assert!(G1::from_hex(&four_more).is_err());
    assert!(G1::from_hex(&format!("e0{}", "00".repeat(47))).is_err());
    assert!(G1::from_hex(&format!("c0{}01", "00".repeat(46))).is_err());
    assert!(G2::from_hex(&format!("e0{}", "00".repeat(95))).is_err());
    assert!(G2::from_hex(&format!("c0{}", "00".repeat(95))).is_ok());
}
