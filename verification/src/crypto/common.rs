//! The public parameters of the channel.
use crate::crypto::backend;
use crate::crypto::backend::{
    g1_at, g1_compressed, g1_encodes_member, g1_generator, g1_in_group, g1_times, g1_uncompressed,
    g2_at, g2_generator, group_order, reduced, sha256,
};
use crate::crypto::wrapper::{Fr, G1, G2};
use crate::encoding::{be_value, hex_encode, hex_round_trip};
use vstd::arithmetic::div_mod::{lemma_mod_twice, lemma_small_mod};
use vstd::prelude::*;

verus! {

/// The public parameters.
#[derive(Clone, Copy, Debug)]
pub struct PP {
    /// The generator of the first group, for values.
    pub g1: G1,
    /// The generator of the second group, for public keys.
    pub g2: G2,
    /// The second generator of the first group, for blinding.
    pub h: G1,
}

/// The bytes that the blinding generator is made from.
pub open spec fn blinding_seed() -> Seq<u8> {
    vstd::utf8::encode_utf8("MBPChannel_H_Generator_Seed_v1"@)
}

/// How often the blinding generator is the generator of the first group.
pub open spec fn blinding_factor() -> int {
    reduced(be_value(sha256(blinding_seed())) as int)
}

impl PP {
    /// Whether the compressed encodings of the two points of the first curve are those of points of
    /// the group. Range proofs ask for that.
    pub open spec fn provable(self) -> bool {
        &&& g1_encodes_member(g1_compressed(self.g1@))
        &&& g1_encodes_member(g1_compressed(self.h@))
    }

    /// Whether the two points of the first curve are in the group, and so can be had back from their
    /// compressed encodings.
    pub open spec fn in_group(self) -> bool {
        &&& g1_in_group(self.g1@)
        &&& g1_in_group(self.h@)
        &&& g1_uncompressed(g1_compressed(self.g1@)) == Some(self.g1@)
        &&& g1_uncompressed(g1_compressed(self.h@)) == Some(self.h@)
    }

    /// Whether these are the parameters that all the nodes share: the standard generators, and a
    /// blinding generator that is the same multiple of the generator for everyone.
    pub open spec fn standard(self) -> bool {
        &&& self.g1@ == g1_generator()
        &&& g1_at(self.g1@, 1)
        &&& self.g2@ == g2_generator()
        &&& g2_at(self.g2@, 1)
        &&& self.h@ == g1_times(g1_generator(), blinding_factor())
        &&& g1_at(self.h@, blinding_factor())
        &&& forall|a: int| #[trigger] g1_at(self.h@, a) ==> reduced(a) == blinding_factor()
        &&& blinding_factor() > 1
    }

    /// Whether the blinding generator is the generator of the first group as often as the digest of
    /// the seed says.
    pub open spec fn seeded(self) -> bool {
        g1_at(self.h@, 0x413eb74a5d5495d9176c8fe6340d5d59330e56568eae0695dc1da95ba8471f85int)
    }

    /// The parameters that all the nodes share.
    pub fn new() -> (res: PP)
        ensures
            res.standard(),
            res.seeded(),
            res.in_group(),
            res.provable(),
    {
        let g1 = G1::generator();
        let g2 = G2::generator();
        let hash = backend::sha256_digest("MBPChannel_H_Generator_Seed_v1".as_bytes());
        let hex_hash = hex_encode(&hash);
        proof {
            hex_round_trip(hash@);
        }
        let r = match Fr::from_hex(&hex_hash) {
            Ok(s) => s,
            Err(_) => Fr::from_u64(123456789),
        };
        let h = g1 * r;
        proof {
            backend::group_order_large();
            assert(1 * r@ == r@);
            assert(blinding_factor()
                == 0x413eb74a5d5495d9176c8fe6340d5d59330e56568eae0695dc1da95ba8471f85int) by {
                reveal(backend::group_order);
            }
            lemma_mod_twice(be_value(sha256(blinding_seed())) as int, group_order());
        }
        g1.to_compressed();
        h.to_compressed();
        PP { g1, g2, h }
    }
}

/// The parameters that all the nodes share, as a node holds them.
#[derive(Clone, Copy, Debug)]
pub struct SharedParameters {
    pp: PP,
}

impl View for SharedParameters {
    type V = PP;

    closed spec fn view(&self) -> PP {
        self.pp
    }
}

impl SharedParameters {
    #[verifier::type_invariant]
    spec fn shared(self) -> bool {
        self.pp.standard() && self.pp.seeded() && self.pp.in_group() && self.pp.provable()
    }

    /// The parameters.
    pub fn new() -> (res: SharedParameters)
        ensures
            res@.standard(),
            res@.seeded(),
            res@.in_group(),
            res@.provable(),
    {
        SharedParameters { pp: PP::new() }
    }

    /// The parameters, of which each holder knows that they are the standard ones.
    pub fn get(&self) -> (res: PP)
        ensures
            res == self@,
            res.standard(),
            res.seeded(),
            res.in_group(),
            res.provable(),
    {
        proof {
            use_type_invariant(self);
        }
        self.pp
    }
}

/// All the nodes have the same parameters.
pub proof fn standard_parameters_agree(one: PP, other: PP)
    requires
        one.standard(),
        other.standard(),
    ensures
        one.g1@ == other.g1@,
        one.g2@ == other.g2@,
        one.h@ == other.h@,
{
}

/// The blinding generator is neither neutral nor the generator for values.
pub proof fn blinding_generator_stands_apart(pp: PP)
    requires
        pp.standard(),
    ensures
        !g1_at(pp.h@, 0),
        pp.h@ != pp.g1@,
{
    backend::group_order_large();
    lemma_small_mod(0, group_order() as nat);
    lemma_small_mod(1, group_order() as nat);
}

} // verus!
