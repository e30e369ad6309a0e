//! Groth16 proofs over BW6-761, which certify what a single participant did with their own coins.

use ark_bw6_761::{Fr, BW6_761};
use ark_ff::BigInt;
use ark_groth16::{Groth16, Proof, VerifyingKey};
use ark_serialize::CanonicalDeserialize;
use ark_snark::SNARK;
use vstd::prelude::*;

use crate::field::FieldElement;

verus! {

/// A proof, in the uncompressed canonical encoding, with the public inputs it is about.
#[derive(Debug)]
pub struct GrothProof {
    pub proof: Vec<u8>,
    pub public_inputs: Vec<FieldElement>,
}

/// Why a proof is not accepted.
#[derive(Clone, Copy, Debug, PartialEq, Eq)]
pub enum ProofFault {
    /// The key or the proof does not decode, or the key is for another number of public inputs.
    Malformed,
    /// The proof was checked, and it does not hold for its public inputs.
    Rejected,
}

/// The integers that field elements stand for.
pub open spec fn field_values(elements: Seq<FieldElement>) -> Seq<nat> {
    elements.map_values(|e: FieldElement| e@)
}

/// What Groth16 verification says of a proof for given public inputs under a key, the key and
/// the proof each in its encoding: nothing when it fails, and otherwise whether the proof holds.
pub uninterp spec fn groth16_verdict(key: Seq<u8>, inputs: Seq<nat>, proof: Seq<u8>) -> Option<
    bool,
>;

/// What is decided of a proof from what verification says of it.
pub open spec fn judgement(verdict: Option<bool>) -> Result<(), ProofFault> {
    match verdict {
        None => Err(ProofFault::Malformed),
        Some(false) => Err(ProofFault::Rejected),
        Some(true) => Ok(()),
    }
}

/// `SNARK::verify` of `ark_groth16`'s `Groth16<BW6_761>`, on a key and a proof read by
/// `ark_serialize`'s `deserialize_uncompressed`, which refuses points outside their groups. The
/// outcome depends on the key, the public inputs and the proof alone, and this names it. Not
/// claimed: for which of them it is which, beyond the name.
#[verifier::external_body]
fn ark_groth16_verify(key: &Vec<u8>, inputs: &Vec<FieldElement>, proof: &Vec<u8>) -> (verdict:
    Option<bool>)
    ensures
        verdict == groth16_verdict(key@, field_values(inputs@), proof@),
{
    let vk = VerifyingKey::<BW6_761>::deserialize_uncompressed(&key[..]).ok()?;
    let pf = Proof::<BW6_761>::deserialize_uncompressed(&proof[..]).ok()?;
    let xs: Vec<Fr> = inputs.iter().map(|e| Fr::new(BigInt(e.limbs))).collect();
    Groth16::<BW6_761>::verify(&vk, &xs, &pf).ok()
}

/// Decides whether a proof is accepted, from what verification says of it.
pub fn judge(verdict: Option<bool>) -> (judged: Result<(), ProofFault>)
    ensures
        judged == judgement(verdict),
        judged is Ok <==> verdict == Some(true),
        judged == Err::<(), _>(ProofFault::Rejected) <==> verdict == Some(false),
        judged == Err::<(), _>(ProofFault::Malformed) <==> verdict is None,
{
    match verdict {
        None => Err(ProofFault::Malformed),
        Some(false) => Err(ProofFault::Rejected),
        Some(true) => Ok(()),
    }
}

impl GrothProof {
    /// What is decided of the proof under a key.
    pub open spec fn judged(self, key: Seq<u8>) -> Result<(), ProofFault> {
        judgement(groth16_verdict(key, field_values(self.public_inputs@), self.proof@))
    }

    /// Verifies the proof for its public inputs, under a key in the uncompressed canonical
    /// encoding.
    pub fn verify(&self, key: &Vec<u8>) -> (judged: Result<(), ProofFault>)
        ensures
            judged == self.judged(key@),
            judged is Ok <==> groth16_verdict(
                key@,
                field_values(self.public_inputs@),
                self.proof@,
            ) == Some(true),
            judged == Err::<(), _>(ProofFault::Rejected) <==> groth16_verdict(
                key@,
                field_values(self.public_inputs@),
                self.proof@,
            ) == Some(false),
            judged == Err::<(), _>(ProofFault::Malformed) <==> groth16_verdict(
                key@,
                field_values(self.public_inputs@),
                self.proof@,
            ) is None,
    {
        judge(ark_groth16_verify(key, &self.public_inputs, &self.proof))
    }
}

/// A proof is accepted exactly when verification says that it holds for its public inputs, all of
/// them, under the key; it is rejected exactly when verification says that it does not hold.
pub proof fn law_acceptance_is_verification(proof: GrothProof, key: Seq<u8>, verdict: Option<bool>)
    requires
        verdict == groth16_verdict(
            key,
            Seq::new(proof.public_inputs@.len(), |i: int| proof.public_inputs@[i]@),
            proof.proof@,
        ),
    ensures
        proof.judged(key) is Ok <==> verdict == Some(true),
        proof.judged(key) == Err::<(), _>(ProofFault::Rejected) <==> verdict == Some(false),
        proof.judged(key) == Err::<(), _>(ProofFault::Malformed) <==> verdict is None,
{
    law_field_values(proof.public_inputs@);
    assert(field_values(proof.public_inputs@) =~= Seq::new(
        proof.public_inputs@.len(),
        |i: int| proof.public_inputs@[i]@,
    ));
}

/// Field elements stand for their integers, one for one.
pub proof fn law_field_values(elements: Seq<FieldElement>)
    ensures
        field_values(elements).len() == elements.len(),
        forall|i: int| 0 <= i < elements.len() ==> #[trigger] field_values(elements)[i] == elements[i]@,
{
}

} // verus!
