//! Elements of the base field of BLS12-377, which is also the scalar field of BW6-761: the field
//! that commitments' coordinates and proofs' public inputs live in.

use ark_ff::{BigInt, BigInteger};
use vstd::arithmetic::power2::{
    lemma2_to64, lemma2_to64_rest, lemma_pow2_adds, lemma_pow2_unfold, pow2,
};
use vstd::prelude::*;

verus! {

/// The modulus of the field, as six little-endian 64-bit limbs.
pub const MODULUS_LIMBS: [u64; 6] = [
    0x8508c00000000001,
    0x170b5d4430000000,
    0x1ef3622fba094800,
    0x1a22d9f300f5138f,
    0xc63b05c06ca1493b,
    0x01ae3a4617c510ea,
];

/// How many bits six limbs hold.
pub const LIMB_BITS: usize = 384;

/// The number that little-endian 64-bit limbs stand for.
pub open spec fn limbs_value(limbs: Seq<u64>) -> nat
    decreases limbs.len(),
{
    if limbs.len() == 0 {
        0
    } else {
        limbs[0] as nat + 0x1_0000_0000_0000_0000nat * limbs_value(limbs.skip(1))
    }
}

/// The modulus of the field.
pub open spec fn modulus() -> nat {
    0x01ae3a4617c510eac63b05c06ca1493b1a22d9f300f5138f1ef3622fba094800170b5d44300000008508c00000000001nat
}

/// The number that bits stand for, least significant bit first.
pub open spec fn bits_value(bits: Seq<bool>) -> nat
    decreases bits.len(),
{
    if bits.len() == 0 {
        0
    } else {
        (if bits[0] {
            1nat
        } else {
            0nat
        }) + 2 * bits_value(bits.skip(1))
    }
}

/// The bits of `bits` that fit in six limbs: all of them, or the lowest 384.
pub open spec fn low_bits(bits: Seq<bool>) -> Seq<bool> {
    if bits.len() <= LIMB_BITS {
        bits
    } else {
        bits.take(LIMB_BITS as int)
    }
}

/// Six limbs, written out as one sum.
proof fn lemma_six_limbs(limbs: Seq<u64>)
    requires
        limbs.len() == 6,
    ensures
        limbs_value(limbs) == limbs[0] + 0x1_0000_0000_0000_0000nat * limbs[1]
            + 0x1_0000_0000_0000_0000_0000_0000_0000_0000nat * limbs[2]
            + 0x1_0000_0000_0000_0000_0000_0000_0000_0000_0000_0000_0000_0000nat * limbs[3]
            + 0x1_0000_0000_0000_0000_0000_0000_0000_0000_0000_0000_0000_0000_0000_0000_0000_0000nat
            * limbs[4]
            + 0x1_0000_0000_0000_0000_0000_0000_0000_0000_0000_0000_0000_0000_0000_0000_0000_0000_0000_0000_0000_0000nat
            * limbs[5],
{
    reveal_with_fuel(limbs_value, 7);
    let s1 = limbs.skip(1);
    let s2 = s1.skip(1);
    let s3 = s2.skip(1);
    let s4 = s3.skip(1);
    let s5 = s4.skip(1);
    assert(s1[0] == limbs[1] && s2[0] == limbs[2] && s3[0] == limbs[3] && s4[0] == limbs[4] && s5[0]
        == limbs[5]);
    assert(s5.skip(1).len() == 0);
}

/// Limbs of one length are determined by the number they stand for.
proof fn lemma_limbs_injective(a: Seq<u64>, b: Seq<u64>)
    requires
        a.len() == b.len(),
        limbs_value(a) == limbs_value(b),
    ensures
        a == b,
    decreases a.len(),
{
    if a.len() > 0 {
        lemma_limbs_injective(a.skip(1), b.skip(1));
        assert forall|i: int| 0 <= i < a.len() implies a[i] == b[i] by {
            if i > 0 {
                assert(a.skip(1)[i - 1] == b.skip(1)[i - 1]);
            }
        }
    }
    assert(a =~= b);
}

/// An element of the field: an integer below the modulus.
#[derive(Clone, Copy, Debug)]
pub struct FieldElement {
    pub(crate) limbs: [u64; 6],
}

impl View for FieldElement {
    type V = nat;

    closed spec fn view(&self) -> nat {
        limbs_value(self.limbs@)
    }
}

impl FieldElement {
    #[verifier::type_invariant]
    spec fn canonical(self) -> bool {
        limbs_value(self.limbs@) < modulus()
    }

    /// The element that six little-endian limbs stand for, if they are below the modulus.
    pub fn from_limbs(limbs: [u64; 6]) -> (element: Option<FieldElement>)
        ensures
            match element {
                Some(e) => e@ == limbs_value(limbs@) && e@ < modulus(),
                None => limbs_value(limbs@) >= modulus(),
            },
            element is Some <==> limbs_value(limbs@)
                < 0x01ae3a4617c510eac63b05c06ca1493b1a22d9f300f5138f1ef3622fba094800170b5d44300000008508c00000000001nat,
            element matches Some(e) ==> e@ == limbs[0] + 0x1_0000_0000_0000_0000nat * limbs[1]
                    + 0x1_0000_0000_0000_0000_0000_0000_0000_0000nat * limbs[2]
                    + 0x1_0000_0000_0000_0000_0000_0000_0000_0000_0000_0000_0000_0000nat * limbs[3]
                    + 0x1_0000_0000_0000_0000_0000_0000_0000_0000_0000_0000_0000_0000_0000_0000_0000_0000nat
                    * limbs[4]
                    + 0x1_0000_0000_0000_0000_0000_0000_0000_0000_0000_0000_0000_0000_0000_0000_0000_0000_0000_0000_0000_0000nat
                    * limbs[5],
    {
        proof {
            lemma_six_limbs(limbs@);
            lemma_six_limbs(MODULUS_LIMBS@);
        }
        let mut i: usize = 6;
        let mut below = false;
        let mut decided = false;
        while i > 0 && !decided
            invariant
                i <= 6,
                !decided ==> forall|j: int| i <= j < 6 ==> limbs[j] == MODULUS_LIMBS[j],
                decided ==> i < 6 && limbs[i as int] != MODULUS_LIMBS[i as int] && below == (
                limbs[i as int] < MODULUS_LIMBS[i as int]) && forall|j: int|
                    i < j < 6 ==> limbs[j] == MODULUS_LIMBS[j],
                !decided ==> !below,
            decreases i,
        {
            i = i - 1;
            if limbs[i] != MODULUS_LIMBS[i] {
                decided = true;
                below = limbs[i] < MODULUS_LIMBS[i];
            }
        }
        if below {
            Some(FieldElement { limbs })
        } else {
            None
        }
    }

    /// The six little-endian limbs of the element.
    pub fn limbs(&self) -> (limbs: [u64; 6])
        ensures
            limbs_value(limbs@) == self@,
            self@ < modulus(),
            self@ == limbs[0] + 0x1_0000_0000_0000_0000nat * limbs[1]
                    + 0x1_0000_0000_0000_0000_0000_0000_0000_0000nat * limbs[2]
                    + 0x1_0000_0000_0000_0000_0000_0000_0000_0000_0000_0000_0000_0000nat * limbs[3]
                    + 0x1_0000_0000_0000_0000_0000_0000_0000_0000_0000_0000_0000_0000_0000_0000_0000_0000nat
                    * limbs[4]
                    + 0x1_0000_0000_0000_0000_0000_0000_0000_0000_0000_0000_0000_0000_0000_0000_0000_0000_0000_0000_0000_0000nat
                    * limbs[5],
    {
        proof {
            use_type_invariant(self);
            lemma_six_limbs(self.limbs@);
        }
        self.limbs
    }

    /// Whether two elements are the same.
    pub fn equals(&self, other: &FieldElement) -> (same: bool)
        ensures
            same == (self@ == other@),
    {
        let mut i: usize = 0;
        while i < 6
            invariant
                i <= 6,
                forall|j: int| 0 <= j < i ==> self.limbs[j] == other.limbs[j],
            decreases 6 - i,
        {
            if self.limbs[i] != other.limbs[i] {
                proof {
                    if self@ == other@ {
                        lemma_limbs_injective(self.limbs@, other.limbs@);
                    }
                }
                return false;
            }
            i = i + 1;
        }
        assert(self.limbs@ =~= other.limbs@);
        true
    }
}

/// `ark_ff`'s `BigInteger::from_bits_le` for six limbs: the number that the bits stand for, least
/// significant first; bits that six limbs cannot hold are dropped.
#[verifier::external_body]
fn ark_from_bits_le(bits: &Vec<bool>) -> (limbs: [u64; 6])
    ensures
        limbs_value(limbs@) == bits_value(low_bits(bits@)),
{
    BigInt::<6>::from_bits_le(bits).0
}

impl FieldElement {
    /// The element that bits stand for, least significant first, if it is below the modulus. Of
    /// more than 384 bits only the lowest 384 count.
    pub fn from_bits_le(bits: &Vec<bool>) -> (element: Option<FieldElement>)
        ensures
            match element {
                Some(e) => e@ == bits_value(low_bits(bits@)) && e@ < modulus(),
                None => bits_value(low_bits(bits@)) >= modulus(),
            },
            element is Some <==> bits_value(low_bits(bits@))
                < 0x01ae3a4617c510eac63b05c06ca1493b1a22d9f300f5138f1ef3622fba094800170b5d44300000008508c00000000001nat,
            bits@.len() <= 384 && element is Some ==> element->0@ == bits_value(bits@),
    {
        FieldElement::from_limbs(ark_from_bits_le(bits))
    }
}

/// Limbs behind others count for two to the power of 64 times their number; one limb is the number
/// it holds, and no limb is zero.
pub proof fn law_limbs_concatenate(a: Seq<u64>, b: Seq<u64>, limb: u64)
    ensures
        limbs_value(a + b) == limbs_value(a) + pow2(64 * a.len()) * limbs_value(b),
        limbs_value(seq![limb]) == limb,
        limbs_value(Seq::<u64>::empty()) == 0,
    decreases a.len(),
{
    lemma2_to64();
    lemma2_to64_rest();
    assert(seq![limb].skip(1) =~= Seq::<u64>::empty());
    assert(limbs_value(Seq::<u64>::empty()) == 0);
    if a.len() == 0 {
        assert(a + b =~= b);
    } else {
        law_limbs_concatenate(a.skip(1), b, limb);
        assert((a + b).skip(1) =~= a.skip(1) + b);
        let rest = 64 * a.skip(1).len();
        lemma_pow2_adds(64, rest);
        assert(pow2(64) * (pow2(rest) * limbs_value(b)) == pow2(64 * a.len()) * limbs_value(b))
            by (nonlinear_arith)
            requires
                pow2(64 * a.len()) == pow2(64) * pow2(rest),
        ;
    }
}

/// Each further bit counts for two to the power of its place; no bit is zero.
pub proof fn law_bits_grow(bits: Seq<bool>, bit: bool)
    ensures
        bits_value(bits.push(bit)) == bits_value(bits) + if bit {
            pow2(bits.len())
        } else {
            0
        },
        bits_value(Seq::<bool>::empty()) == 0,
    decreases bits.len(),
{
    lemma2_to64();
    if bits.len() == 0 {
        assert(bits.push(bit).skip(1) =~= bits);
        assert(bits_value(bits) == 0);
    } else {
        law_bits_grow(bits.skip(1), bit);
        assert(bits.push(bit).skip(1) =~= bits.skip(1).push(bit));
        lemma_pow2_unfold(bits.len());
    }
}

/// At most 384 bits are kept, and those that are kept are the first ones, unchanged.
pub proof fn law_low_bits_are_a_prefix(bits: Seq<bool>)
    ensures
        bits.len() <= 384 ==> low_bits(bits) == bits,
        bits.len() > 384 ==> low_bits(bits) == bits.subrange(0, 384),
{
}

} // verus!
