//! Scalars, points of the two groups and the pairing.
use crate::crypto::backend;
use crate::crypto::backend::{
    drawn_bytes, g1_at, g1_compressed, g1_generator, g1_hash, g1_in_group, g1_negation, g1_sum,
    g1_times, g1_uncompressed, g2_at, g2_decodes, g2_generator, g2_negation, g2_sum, g2_times,
    group_order, gt_at, has_full_order, multiple, pairing_value, reduced, scalar_value,
};
use crate::encoding::{
    be_bytes, be_bytes_of_value, be_value, bytes_equal, hex_bytes, hex_decode, hex_decodes,
    hex_encode, hex_error, hex_round_trip, hex_text, le_value,
};
use core::ops::{Add, Mul, Sub};
use vstd::arithmetic::div_mod::{
    lemma_add_mod_noop, lemma_mod_bound, lemma_mod_equivalence, lemma_mul_mod_noop_left,
    lemma_mul_mod_noop_right, lemma_small_mod,
};
use vstd::prelude::*;
use vstd::std_specs::ops::{AddSpecImpl, MulSpecImpl, SubSpecImpl};

verus! {

/// The scalar that a text gives in hexadecimal digits, reduced, if it gives one.
pub open spec fn fr_of_hex(s: Seq<char>) -> Option<int> {
    if hex_decodes(s) && s.len() == 64 {
        Some(reduced(be_value(hex_bytes(s)) as int))
    } else {
        None
    }
}

/// Whether a scalar was drawn at random: 32 bytes that the random number generator gave, lowest first,
/// modulo the group order.
pub open spec fn is_drawn(k: int) -> bool {
    exists|bytes: [u8; 32]| #[trigger] drawn_bytes(bytes) && k == reduced(le_value(bytes@) as int)
}

/// A scalar: an integer modulo the group order.
#[derive(Clone, Copy, Debug)]
pub struct Fr {
    bytes: [u8; 32],
}

impl View for Fr {
    type V = int;

    closed spec fn view(&self) -> int {
        scalar_value(self.bytes@)
    }
}

impl Fr {
    #[verifier::type_invariant]
    spec fn canonical(self) -> bool {
        scalar_value(self.bytes@) < group_order()
    }

    /// A scalar is a canonical representative.
    pub(crate) fn in_range(&self)
        ensures
            0 <= self@ < group_order(),
    {
        proof {
            use_type_invariant(self);
        }
    }

    /// The scalar of a 64-bit integer.
    pub fn from_u64(val: u64) -> (res: Fr)
        ensures
            res@ == val,
    {
        proof {
            backend::group_order_large();
        }
        Fr { bytes: backend::scalar_of(val) }
    }

    /// The big-endian encoding of the scalar.
    pub fn to_be_bytes(&self) -> (res: [u8; 32])
        ensures
            be_value(res@) == self@,
            res@ == be_bytes(self@ as nat, 32),
    {
        proof {
            be_bytes_of_value(self.bytes@);
        }
        self.bytes
    }

    /// The scalar as 64 hexadecimal digits, most significant first, from which it can be read back.
    pub fn to_hex(&self) -> (res: String)
        ensures
            res@ == hex_text(be_bytes(self@ as nat, 32)),
            fr_of_hex(res@) == Some(self@),
    {
        self.in_range();
        let bytes = self.to_be_bytes();
        proof {
            hex_round_trip(bytes@);
            lemma_small_mod(self@ as nat, group_order() as nat);
        }
        hex_encode(&bytes)
    }

    /// The scalar as it is shown for debugging.
    pub fn debug_text(&self) -> (res: String)
        ensures
            res@ == "Fr("@ + hex_text(be_bytes(self@ as nat, 32)) + ")"@,
    {
        "Fr(".to_owned().concat(self.to_hex().as_str()).concat(")")
    }

    /// The integer of a big-endian byte string, modulo the group order.
    pub fn from_be_bytes(bytes: &[u8]) -> (res: Fr)
        ensures
            res@ == reduced(be_value(bytes@) as int),
    {
        let base = Fr::from_u64(256);
        let mut acc = Fr::from_u64(0);
        let mut i: usize = 0;
        proof {
            backend::group_order_large();
            lemma_small_mod(0, group_order() as nat);
            assert(bytes@.take(0).len() == 0);
        }
        while i < bytes.len()
            invariant
                i <= bytes.len(),
                base@ == 256,
                group_order() > 256,
                acc@ == reduced(be_value(bytes@.take(i as int)) as int),
            decreases bytes.len() - i,
        {
            let ghost head = be_value(bytes@.take(i as int)) as int;
            let ghost byte = bytes@[i as int] as int;
            proof {
                let next = bytes@.take(i + 1);
                assert(next.drop_last() =~= bytes@.take(i as int));
                assert(next.last() == bytes@[i as int]);
                let m = group_order();
                lemma_mul_mod_noop_left(head, 256, m);
                lemma_add_mod_noop(head * 256, byte, m);
                lemma_small_mod(byte as nat, m as nat);
            }
            acc = acc * base + Fr::from_u64(bytes[i] as u64);
            i += 1;
        }
        assert(bytes@.take(bytes@.len() as int) =~= bytes@);
        acc
    }

    /// The integer of a little-endian byte string, modulo the group order.
    pub fn from_le_bytes(bytes: &[u8]) -> (res: Fr)
        ensures
            res@ == reduced(le_value(bytes@) as int),
    {
        let mut reversed: Vec<u8> = Vec::new();
        let mut i: usize = bytes.len();
        while i > 0
            invariant
                i <= bytes.len(),
                reversed@.len() == bytes.len() - i,
                forall|j: int|
                    0 <= j < reversed@.len() ==> reversed@[j] == bytes@[bytes.len() - 1 - j],
            decreases i,
        {
            i -= 1;
            reversed.push(bytes[i]);
        }
        assert(reversed@ =~= bytes@.reverse());
        Fr::from_be_bytes(&reversed)
    }

    /// Reads a scalar from 64 hexadecimal digits, most significant first. An integer that is not
    /// below the group order is reduced.
    pub fn from_hex(s: &str) -> (res: Result<Fr, String>)
        ensures
            match res {
                Ok(r) => fr_of_hex(s@) == Some(r@),
                Err(e) => {
                    &&& fr_of_hex(s@) is None
                    &&& e@ == if !hex_decodes(s@) {
                        hex_error(s@)
                    } else {
                        "Invalid Fr hex length"@
                    }
                },
            },
    {
        let bytes = match hex_decode(s) {
            Ok(bytes) => bytes,
            Err(e) => return Err(e),
        };
        if bytes.len() != 32 {
            return Err("Invalid Fr hex length".to_owned());
        }
        Ok(Fr::from_be_bytes(&bytes))
    }

    /// A scalar drawn at random.
    pub fn random() -> (res: Fr)
        ensures
            0 <= res@ < group_order(),
            is_drawn(res@),
    {
        let bytes = backend::random_bytes();
        proof {
            backend::bytes_are_drawn(bytes);
        }
        let res = Fr::from_le_bytes(&bytes);
        res.in_range();
        res
    }

    /// The scalar zero.
    pub fn zero() -> (res: Fr)
        ensures
            res@ == 0,
    {
        Fr::from_u64(0)
    }

    /// The inverse of the scalar; of zero, zero.
    pub fn inverse(&self) -> (res: Fr)
        ensures
            0 <= res@ < group_order(),
            self@ == 0 ==> res@ == 0,
            self@ != 0 ==> reduced(self@ * res@) == 1,
    {
        proof {
            use_type_invariant(self);
            backend::group_order_large();
        }
        match backend::scalar_inverse(&self.bytes) {
            Some(bytes) => Fr { bytes },
            None => Fr::zero(),
        }
    }
}

impl Add for Fr {
    type Output = Fr;

    fn add(self, rhs: Fr) -> (res: Fr)
        ensures
            res@ == reduced(self@ + rhs@),
    {
        proof {
            use_type_invariant(&self);
            use_type_invariant(&rhs);
            backend::group_order_large();
            lemma_mod_bound(self@ + rhs@, group_order());
        }
        Fr { bytes: backend::scalar_sum(&self.bytes, &rhs.bytes) }
    }
}

impl AddSpecImpl for Fr {
    open spec fn obeys_add_spec() -> bool {
        false
    }

    open spec fn add_req(self, rhs: Fr) -> bool {
        true
    }

    open spec fn add_spec(self, rhs: Fr) -> Fr {
        arbitrary()
    }
}

impl Sub for Fr {
    type Output = Fr;

    fn sub(self, rhs: Fr) -> (res: Fr)
        ensures
            res@ == reduced(self@ - rhs@),
    {
        proof {
            use_type_invariant(&self);
            use_type_invariant(&rhs);
            backend::group_order_large();
            lemma_mod_bound(self@ - rhs@, group_order());
        }
        Fr { bytes: backend::scalar_difference(&self.bytes, &rhs.bytes) }
    }
}

impl SubSpecImpl for Fr {
    open spec fn obeys_sub_spec() -> bool {
        false
    }

    open spec fn sub_req(self, rhs: Fr) -> bool {
        true
    }

    open spec fn sub_spec(self, rhs: Fr) -> Fr {
        arbitrary()
    }
}

impl Mul for Fr {
    type Output = Fr;

    fn mul(self, rhs: Fr) -> (res: Fr)
        ensures
            res@ == reduced(self@ * rhs@),
    {
        proof {
            use_type_invariant(&self);
            use_type_invariant(&rhs);
            backend::group_order_large();
            lemma_mod_bound(self@ * rhs@, group_order());
        }
        Fr { bytes: backend::scalar_product(&self.bytes, &rhs.bytes) }
    }
}

impl MulSpecImpl for Fr {
    open spec fn obeys_mul_spec() -> bool {
        false
    }

    open spec fn mul_req(self, rhs: Fr) -> bool {
        true
    }

    open spec fn mul_spec(self, rhs: Fr) -> Fr {
        arbitrary()
    }
}

impl PartialEq for Fr {
    fn eq(&self, other: &Fr) -> (res: bool) {
        proof {
            be_bytes_of_value(self.bytes@);
            be_bytes_of_value(other.bytes@);
        }
        bytes_equal(&self.bytes, &other.bytes)
    }
}

impl vstd::std_specs::cmp::PartialEqSpecImpl for Fr {
    open spec fn obeys_eq_spec() -> bool {
        true
    }

    open spec fn eq_spec(&self, other: &Fr) -> bool {
        self@ == other@
    }
}

/// The hexadecimal text of the compressed encoding of a point of the first curve.
pub open spec fn g1_hex(p: Seq<u64>) -> Seq<char> {
    hex_text(g1_compressed(p))
}

/// The point of the first curve that a text gives in hexadecimal digits, if it gives one.
pub open spec fn g1_of_hex(s: Seq<char>) -> Option<Seq<u64>> {
    if hex_decodes(s) && s.len() == 96 {
        g1_uncompressed(hex_bytes(s))
    } else {
        None
    }
}

/// Whether a point of the first curve can be had back from its hexadecimal text.
pub open spec fn readable(p: Seq<u64>) -> bool {
    g1_of_hex(g1_hex(p)) == Some(p)
}

/// A point of the first curve.
#[derive(Clone, Copy, Debug)]
pub struct G1 {
    limbs: [u64; 12],
}

impl View for G1 {
    type V = Seq<u64>;

    closed spec fn view(&self) -> Seq<u64> {
        self.limbs@
    }
}

impl G1 {
    /// The generator of the first group.
    pub fn generator() -> (res: G1)
        ensures
            res@ == g1_generator(),
            g1_at(res@, 1),
    {
        G1 { limbs: backend::g1_base() }
    }

    /// The compressed encoding of the point. A point of the group can be read back from it.
    pub fn to_compressed(&self) -> (res: [u8; 48])
        ensures
            res@ == g1_compressed(self@),
            g1_in_group(self@) ==> g1_uncompressed(res@) == Some(self@),
    {
        backend::g1_compress(&self.limbs)
    }

    /// The compressed encoding of the point in hexadecimal digits. A point of the group can be read
    /// back from it.
    pub fn to_hex(&self) -> (res: String)
        ensures
            res@ == g1_hex(self@),
            res@.len() == 96,
            hex_decodes(res@),
            hex_bytes(res@) == g1_compressed(self@),
            g1_in_group(self@) ==> readable(self@),
    {
        let bytes = self.to_compressed();
        proof {
            hex_round_trip(bytes@);
        }
        hex_encode(&bytes)
    }

    /// The point as it is shown for debugging.
    pub fn debug_text(&self) -> (res: String)
        ensures
            res@ == "G1("@ + g1_hex(self@) + ")"@,
    {
        "G1(".to_owned().concat(self.to_hex().as_str()).concat(")")
    }

    /// Reads a point of the first curve from 96 hexadecimal digits. That the point is in the group
    /// is not asked for. The digits can be had back from the point, in lower case.
    pub fn from_hex(s: &str) -> (res: Result<G1, String>)
        ensures
            match res {
                Ok(p) => {
                    &&& g1_of_hex(s@) == Some(p@)
                    &&& g1_compressed(p@) == hex_bytes(s@)
                },
                Err(e) => {
                    &&& g1_of_hex(s@) is None
                    &&& e@ == if !hex_decodes(s@) {
                        hex_error(s@)
                    } else if s@.len() != 96 {
                        "Invalid G1 hex length"@
                    } else {
                        "G1 uncompress failed"@
                    }
                },
            },
    {
        let bytes = match hex_decode(s) {
            Ok(bytes) => bytes,
            Err(e) => return Err(e),
        };
        match array_48(&bytes) {
            None => Err("Invalid G1 hex length".to_owned()),
            Some(enc) => match backend::g1_uncompress(&enc) {
                None => Err("G1 uncompress failed".to_owned()),
                Some(limbs) => Ok(G1 { limbs }),
            },
        }
    }

    /// The point of the first group that a message is hashed to under a domain separation tag.
    pub fn hash_to_curve(msg: &[u8], dst: &[u8]) -> (res: G1)
        ensures
            res@ == g1_hash(msg@, dst@),
            g1_in_group(res@),
    {
        G1 { limbs: backend::g1_hash_to_curve(msg, dst) }
    }
}

/// The 48 bytes of a byte string of that length.
pub fn array_48(bytes: &[u8]) -> (res: Option<[u8; 48]>)
    ensures
        match res {
            Some(array) => array@ == bytes@,
            None => bytes@.len() != 48,
        },
        bytes@.len() != 48 ==> res is None,
{
    if bytes.len() != 48 {
        return None;
    }
    let mut array: [u8; 48] = [0; 48];
    let mut i: usize = 0;
    while i < 48
        invariant
            i <= 48,
            bytes@.len() == 48,
            forall|j: int| 0 <= j < i ==> array@[j] == bytes@[j],
        decreases 48 - i,
    {
        array[i] = bytes[i];
        i += 1;
    }
    assert(array@ =~= bytes@);
    Some(array)
}

impl Add for G1 {
    type Output = G1;

    fn add(self, rhs: G1) -> (res: G1)
        ensures
            res@ == g1_sum(self@, rhs@),
            forall|a: int, b: int|
                #[trigger] g1_at(self@, a) && #[trigger] g1_at(rhs@, b) ==> g1_at(res@, a + b),
    {
        G1 { limbs: backend::g1_add(&self.limbs, &rhs.limbs) }
    }
}

impl AddSpecImpl for G1 {
    open spec fn obeys_add_spec() -> bool {
        false
    }

    open spec fn add_req(self, rhs: G1) -> bool {
        true
    }

    open spec fn add_spec(self, rhs: G1) -> G1 {
        arbitrary()
    }
}

impl Sub for G1 {
    type Output = G1;

    fn sub(self, rhs: G1) -> (res: G1)
        ensures
            res@ == g1_sum(self@, g1_negation(rhs@)),
            forall|a: int, b: int|
                #[trigger] g1_at(self@, a) && #[trigger] g1_at(rhs@, b) ==> g1_at(res@, a - b),
    {
        let negated = backend::g1_neg(&rhs.limbs);
        let res = G1 { limbs: backend::g1_add(&self.limbs, &negated) };
        assert forall|a: int, b: int|
            #[trigger] g1_at(self@, a) && #[trigger] g1_at(rhs@, b) implies g1_at(res@, a - b) by {
            assert(g1_at(negated@, -b));
            assert(a + (-b) == a - b);
        }
        res
    }
}

impl SubSpecImpl for G1 {
    open spec fn obeys_sub_spec() -> bool {
        false
    }

    open spec fn sub_req(self, rhs: G1) -> bool {
        true
    }

    open spec fn sub_spec(self, rhs: G1) -> G1 {
        arbitrary()
    }
}

impl Mul<Fr> for G1 {
    type Output = G1;

    fn mul(self, rhs: Fr) -> (res: G1)
        ensures
            res@ == g1_times(self@, rhs@),
            forall|a: int| #[trigger] g1_at(self@, a) ==> g1_at(res@, a * rhs@),
            forall|a: int, b: int|
                #[trigger] g1_at(res@, a) && #[trigger] g1_at(res@, b) ==> reduced(a) == reduced(b),
    {
        proof {
            use_type_invariant(&rhs);
        }
        G1 { limbs: backend::g1_mul(&self.limbs, &rhs.bytes) }
    }
}

impl MulSpecImpl<Fr> for G1 {
    open spec fn obeys_mul_spec() -> bool {
        false
    }

    open spec fn mul_req(self, rhs: Fr) -> bool {
        true
    }

    open spec fn mul_spec(self, rhs: Fr) -> G1 {
        arbitrary()
    }
}

impl PartialEq for G1 {
    fn eq(&self, other: &G1) -> (res: bool) {
        let mut i: usize = 0;
        while i < 12
            invariant
                i <= 12,
                forall|j: int| 0 <= j < i ==> self.limbs@[j] == other.limbs@[j],
            decreases 12 - i,
        {
            if self.limbs[i] != other.limbs[i] {
                return false;
            }
            i += 1;
        }
        assert(self.limbs@ =~= other.limbs@);
        true
    }
}

impl vstd::std_specs::cmp::PartialEqSpecImpl for G1 {
    open spec fn obeys_eq_spec() -> bool {
        true
    }

    open spec fn eq_spec(&self, other: &G1) -> bool {
        self@ == other@
    }
}

/// The point of the second curve that a text gives in hexadecimal digits, if it gives one.
pub open spec fn g2_of_hex(s: Seq<char>) -> Option<Seq<u8>> {
    if hex_decodes(s) && s.len() == 192 && g2_decodes(hex_bytes(s)) {
        Some(hex_bytes(s))
    } else {
        None
    }
}

/// A point of the second curve.
#[derive(Clone, Copy, Debug)]
pub struct G2 {
    bytes: [u8; 96],
}

impl View for G2 {
    type V = Seq<u8>;

    /// The compressed encoding of the point.
    closed spec fn view(&self) -> Seq<u8> {
        self.bytes@
    }
}

impl G2 {
    #[verifier::type_invariant]
    spec fn on_curve(self) -> bool {
        g2_decodes(self.bytes@)
    }

    /// The generator of the second group.
    pub fn generator() -> (res: G2)
        ensures
            res@ == g2_generator(),
            g2_at(res@, 1),
    {
        G2 { bytes: backend::g2_base() }
    }

    /// The compressed encoding of the point in hexadecimal digits, from which the point can be read
    /// back.
    pub fn to_hex(&self) -> (res: String)
        ensures
            res@ == hex_text(self@),
            g2_of_hex(res@) == Some(self@),
    {
        proof {
            use_type_invariant(self);
            hex_round_trip(self.bytes@);
        }
        hex_encode(&self.bytes)
    }

    /// The point as it is shown for debugging.
    pub fn debug_text(&self) -> (res: String)
        ensures
            res@ == "G2("@ + hex_text(self@) + ")"@,
    {
        "G2(".to_owned().concat(self.to_hex().as_str()).concat(")")
    }

    /// Reads a point of the second curve from 192 hexadecimal digits. That the point is in the group
    /// is not asked for.
    pub fn from_hex(s: &str) -> (res: Result<G2, String>)
        ensures
            match res {
                Ok(p) => g2_of_hex(s@) == Some(p@),
                Err(e) => {
                    &&& g2_of_hex(s@) is None
                    &&& e@ == if !hex_decodes(s@) {
                        hex_error(s@)
                    } else if s@.len() != 192 {
                        "Invalid G2 hex length"@
                    } else {
                        "G2 uncompress failed"@
                    }
                },
            },
    {
        let decoded = match hex_decode(s) {
            Ok(decoded) => decoded,
            Err(e) => return Err(e),
        };
        if decoded.len() != 96 {
            return Err("Invalid G2 hex length".to_owned());
        }
        let mut bytes: [u8; 96] = [0; 96];
        let mut i: usize = 0;
        while i < 96
            invariant
                i <= 96,
                decoded@.len() == 96,
                forall|j: int| 0 <= j < i ==> bytes@[j] == decoded@[j],
            decreases 96 - i,
        {
            bytes[i] = decoded[i];
            i += 1;
        }
        assert(bytes@ =~= decoded@);
        if backend::g2_valid(&bytes) {
            Ok(G2 { bytes })
        } else {
            Err("G2 uncompress failed".to_owned())
        }
    }
}

impl Add for G2 {
    type Output = G2;

    fn add(self, rhs: G2) -> (res: G2)
        ensures
            res@ == g2_sum(self@, rhs@),
            forall|a: int, b: int|
                #[trigger] g2_at(self@, a) && #[trigger] g2_at(rhs@, b) ==> g2_at(res@, a + b),
    {
        proof {
            use_type_invariant(&self);
            use_type_invariant(&rhs);
        }
        G2 { bytes: backend::g2_add(&self.bytes, &rhs.bytes) }
    }
}

impl AddSpecImpl for G2 {
    open spec fn obeys_add_spec() -> bool {
        false
    }

    open spec fn add_req(self, rhs: G2) -> bool {
        true
    }

    open spec fn add_spec(self, rhs: G2) -> G2 {
        arbitrary()
    }
}

impl Sub for G2 {
    type Output = G2;

    fn sub(self, rhs: G2) -> (res: G2)
        ensures
            res@ == g2_sum(self@, g2_negation(rhs@)),
            forall|a: int, b: int|
                #[trigger] g2_at(self@, a) && #[trigger] g2_at(rhs@, b) ==> g2_at(res@, a - b),
    {
        proof {
            use_type_invariant(&self);
            use_type_invariant(&rhs);
        }
        let negated = backend::g2_neg(&rhs.bytes);
        let res = G2 { bytes: backend::g2_add(&self.bytes, &negated) };
        assert forall|a: int, b: int|
            #[trigger] g2_at(self@, a) && #[trigger] g2_at(rhs@, b) implies g2_at(res@, a - b) by {
            assert(g2_at(negated@, -b));
            assert(a + (-b) == a - b);
        }
        res
    }
}

impl SubSpecImpl for G2 {
    open spec fn obeys_sub_spec() -> bool {
        false
    }

    open spec fn sub_req(self, rhs: G2) -> bool {
        true
    }

    open spec fn sub_spec(self, rhs: G2) -> G2 {
        arbitrary()
    }
}

impl Mul<Fr> for G2 {
    type Output = G2;

    fn mul(self, rhs: Fr) -> (res: G2)
        ensures
            res@ == g2_times(self@, rhs@),
            forall|a: int| #[trigger] g2_at(self@, a) ==> g2_at(res@, a * rhs@),
    {
        proof {
            use_type_invariant(&self);
            use_type_invariant(&rhs);
        }
        G2 { bytes: backend::g2_mul(&self.bytes, &rhs.bytes) }
    }
}

impl MulSpecImpl<Fr> for G2 {
    open spec fn obeys_mul_spec() -> bool {
        false
    }

    open spec fn mul_req(self, rhs: Fr) -> bool {
        true
    }

    open spec fn mul_spec(self, rhs: Fr) -> G2 {
        arbitrary()
    }
}

/// A value of the pairing.
#[derive(Clone, Copy, Debug)]
pub struct Fp12 {
    bytes: [u8; 576],
}

impl View for Fp12 {
    type V = Seq<u8>;

    /// The big-endian encoding of the value.
    closed spec fn view(&self) -> Seq<u8> {
        self.bytes@
    }
}

/// Whether `v` is the pairing of `q` with `p`. On multiples of the generators it is that of the one
/// generator with the product of the factors times the other, and with no other multiple of it; and
/// it has the group order unless one of the points is neutral.
pub open spec fn is_pairing(v: Seq<u8>, q: Seq<u8>, p: Seq<u64>) -> bool {
    &&& v == pairing_value(q, p)
    &&& forall|a: int, b: int, c: int|
        #[trigger] g1_at(p, a) && #[trigger] g2_at(q, b) ==> (v == #[trigger] gt_at(c)
            <==> reduced(c) == reduced(a * b))
    &&& forall|a: int, b: int|
        #[trigger] g1_at(p, a) && #[trigger] g2_at(q, b) && reduced(a) != 0 && reduced(b) != 0
            ==> has_full_order(v, a * b)
}

/// The pairing of a point of the second curve with one of the first.
pub fn pairing(p2: G2, p1: G1) -> (res: Fp12)
    ensures
        is_pairing(res@, p2@, p1@),
{
    proof {
        use_type_invariant(&p2);
    }
    Fp12 { bytes: backend::pair(&p2.bytes, &p1.limbs) }
}

/// Whether two values of the pairing are equal.
pub fn fp12_eq(a: &Fp12, b: &Fp12) -> (res: bool)
    ensures
        res == (a@ == b@),
{
    bytes_equal(&a.bytes, &b.bytes)
}

/// The pairing is bilinear: factors move from the one point to the other and from both to one. `p` and
/// `q` are `a` and `b` times the generators; `v` pairs `s` times `q` with `t` times `p`, and `w` pairs
/// `s * t` times `q` with `p`; `x` pairs `s` times `q` with `p`, and `y` pairs `q` with `s` times `p`.
pub proof fn pairing_is_bilinear(
    p: Seq<u64>,
    q: Seq<u8>,
    a: int,
    b: int,
    s: int,
    t: int,
    p_s: Seq<u64>,
    p_t: Seq<u64>,
    q_s: Seq<u8>,
    q_st: Seq<u8>,
    v: Seq<u8>,
    w: Seq<u8>,
    x: Seq<u8>,
    y: Seq<u8>,
)
    requires
        g1_at(p, a),
        g2_at(q, b),
        g1_at(p_s, a * s),
        g1_at(p_t, a * t),
        g2_at(q_s, b * s),
        g2_at(q_st, b * reduced(s * t)),
        is_pairing(v, q_s, p_t),
        is_pairing(w, q_st, p),
        is_pairing(x, q_s, p),
        is_pairing(y, q, p_s),
    ensures
        v == w,
        x == y,
{
    backend::group_order_large();
    let n = group_order();
    assert((a * t) * (b * s) == (a * b) * (s * t)) by (nonlinear_arith);
    assert(a * (b * reduced(s * t)) == (a * b) * reduced(s * t)) by (nonlinear_arith);
    lemma_mul_mod_noop_right(a * b, s * t, n);
    assert(v == gt_at((a * b) * (s * t)));
    assert(w == gt_at((a * b) * (s * t)));
    assert(a * (b * s) == (a * s) * b) by (nonlinear_arith);
    assert(x == gt_at(a * (b * s)));
    assert(y == gt_at(a * (b * s)));
}

/// The pairing tells scalars apart: for two points that are not neutral, the pairings of the one with
/// `s` and with `t` times the other are equal exactly where `s` and `t` are one scalar. `u` is the
/// pairing of the two points themselves.
pub proof fn pairing_tells_scalars_apart(
    p: Seq<u64>,
    q: Seq<u8>,
    a: int,
    b: int,
    s: int,
    t: int,
    p_s: Seq<u64>,
    p_t: Seq<u64>,
    u: Seq<u8>,
    v: Seq<u8>,
    w: Seq<u8>,
)
    requires
        g1_at(p, a),
        g2_at(q, b),
        reduced(a) != 0,
        reduced(b) != 0,
        g1_at(p_s, a * s),
        g1_at(p_t, a * t),
        is_pairing(u, q, p),
        is_pairing(v, q, p_s),
        is_pairing(w, q, p_t),
    ensures
        v == w <==> reduced(s) == reduced(t),
{
    backend::group_order_large();
    let n = group_order();
    let c = a * b;
    assert((a * s) * b == c * s) by (nonlinear_arith)
        requires
            c == a * b,
    ;
    assert((a * t) * b == c * t) by (nonlinear_arith)
        requires
            c == a * b,
    ;
    assert(v == gt_at(c * s));
    assert(w == gt_at(c * t));
    if v == w {
        assert(reduced(c * s) == reduced(c * t));
        lemma_mod_equivalence(c * s, c * t, n);
        assert(c * s - c * t == c * (s - t)) by (nonlinear_arith);
        assert(multiple(c, s - t) == 0);
        lemma_mod_equivalence(s, t, n);
    }
    if reduced(s) == reduced(t) {
        lemma_mul_mod_noop_right(c, s, n);
        lemma_mul_mod_noop_right(c, t, n);
    }
}

} // verus!
