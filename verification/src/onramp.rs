//! The on-ramp: a coin enters the ledger on the strength of a proof that it was minted properly.

use vstd::prelude::*;

use crate::curve::{in_group, G1Point};
use crate::groth::{field_values, groth16_verdict, GrothProof, ProofFault};
use crate::swap::{commitment_at, read_commitment, CoinFault};

verus! {

/// Where an on-ramp proof's public inputs hold the coordinates of the coin's commitment.
#[derive(Clone, Copy, Debug)]
pub struct OnRampLayout {
    pub coin_x: usize,
    pub coin_y: usize,
}

/// Why an on-ramp transaction is refused.
#[derive(Clone, Copy, Debug, PartialEq, Eq)]
pub enum OnRampError {
    /// The proof is not accepted.
    Proof(ProofFault),
    /// The proof is accepted, but its public inputs hold no commitment.
    Coin(CoinFault),
}

/// The outcome of verifying an on-ramp transaction: why it is refused, or the commitment of the
/// coin to add.
pub open spec fn on_ramp_outcome(
    proof: GrothProof,
    key: Seq<u8>,
    layout: OnRampLayout,
) -> Result<Option<(nat, nat)>, OnRampError> {
    match proof.judged(key) {
        Err(fault) => Err(OnRampError::Proof(fault)),
        Ok(_) => match commitment_at(proof.public_inputs@, layout.coin_x, layout.coin_y) {
            Err(fault) => Err(OnRampError::Coin(fault)),
            Ok(coin) => Ok(coin),
        },
    }
}

/// Verifies an on-ramp proof under its key, and returns the commitment of the coin to add.
pub fn verify_on_ramp(proof: &GrothProof, key: &Vec<u8>, layout: &OnRampLayout) -> (coin: Result<
    G1Point,
    OnRampError,
>)
    ensures
        match coin {
            Ok(c) => on_ramp_outcome(*proof, key@, *layout) == Ok::<_, OnRampError>(c@),
            Err(error) => on_ramp_outcome(*proof, key@, *layout) == Err::<Option<(nat, nat)>, _>(
                error,
            ),
        },
        match coin {
            Ok(c) => {
                &&& groth16_verdict(key@, field_values(proof.public_inputs@), proof.proof@) == Some(
                    true,
                )
                &&& layout.coin_x < proof.public_inputs@.len()
                &&& layout.coin_y < proof.public_inputs@.len()
                &&& in_group(
                    proof.public_inputs@[layout.coin_x as int]@,
                    proof.public_inputs@[layout.coin_y as int]@,
                )
                &&& !c.infinity
                &&& c.x@ == proof.public_inputs@[layout.coin_x as int]@
                &&& c.y@ == proof.public_inputs@[layout.coin_y as int]@
            },
            Err(OnRampError::Proof(ProofFault::Malformed)) => groth16_verdict(
                key@,
                field_values(proof.public_inputs@),
                proof.proof@,
            ) is None,
            Err(OnRampError::Proof(ProofFault::Rejected)) => groth16_verdict(
                key@,
                field_values(proof.public_inputs@),
                proof.proof@,
            ) == Some(false),
            Err(OnRampError::Coin(CoinFault::MissingPublicInput)) => {
                &&& groth16_verdict(key@, field_values(proof.public_inputs@), proof.proof@) == Some(
                    true,
                )
                &&& layout.coin_x >= proof.public_inputs@.len() || layout.coin_y
                    >= proof.public_inputs@.len()
            },
            Err(OnRampError::Coin(CoinFault::NotACommitment)) => {
                &&& groth16_verdict(key@, field_values(proof.public_inputs@), proof.proof@) == Some(
                    true,
                )
                &&& layout.coin_x < proof.public_inputs@.len()
                &&& layout.coin_y < proof.public_inputs@.len()
                &&& !in_group(
                    proof.public_inputs@[layout.coin_x as int]@,
                    proof.public_inputs@[layout.coin_y as int]@,
                )
            },
            Err(OnRampError::Coin(_)) => false,
        },
{
    match proof.verify(key) {
        Err(fault) => {
            return Err(OnRampError::Proof(fault));
        },
        Ok(_) => {},
    }
    match read_commitment(&proof.public_inputs, layout.coin_x, layout.coin_y) {
        Err(fault) => Err(OnRampError::Coin(fault)),
        Ok(coin) => Ok(coin),
    }
}

/// An on-ramp transaction is accepted exactly when its proof verifies and the two public inputs
/// that the layout points at are there and are the coordinates of a point of the group, however
/// many other public inputs there are; and then the coin is that point.
pub proof fn law_valid_on_ramp_is_accepted(proof: GrothProof, key: Seq<u8>, layout: OnRampLayout)
    ensures
        on_ramp_outcome(proof, key, layout) is Ok <==> {
            &&& groth16_verdict(key, field_values(proof.public_inputs@), proof.proof@) == Some(true)
            &&& layout.coin_x < proof.public_inputs@.len()
            &&& layout.coin_y < proof.public_inputs@.len()
            &&& in_group(
                proof.public_inputs@[layout.coin_x as int]@,
                proof.public_inputs@[layout.coin_y as int]@,
            )
        },
        on_ramp_outcome(proof, key, layout) matches Ok(coin) ==> coin == Some(
            (
                proof.public_inputs@[layout.coin_x as int]@,
                proof.public_inputs@[layout.coin_y as int]@,
            ),
        ),
{
}

/// Public inputs other than those that the layout points at have no say in which coin a verified
/// on-ramp transaction yields: two verified proofs that agree there yield the same outcome.
pub proof fn law_on_ramp_reads_two_inputs(
    a: GrothProof,
    b: GrothProof,
    key: Seq<u8>,
    layout: OnRampLayout,
)
    requires
        groth16_verdict(key, field_values(a.public_inputs@), a.proof@) == Some(true),
        groth16_verdict(key, field_values(b.public_inputs@), b.proof@) == Some(true),
        layout.coin_x < a.public_inputs@.len() && layout.coin_y < a.public_inputs@.len(),
        layout.coin_x < b.public_inputs@.len() && layout.coin_y < b.public_inputs@.len(),
        a.public_inputs@[layout.coin_x as int]@ == b.public_inputs@[layout.coin_x as int]@,
        a.public_inputs@[layout.coin_y as int]@ == b.public_inputs@[layout.coin_y as int]@,
    ensures
        on_ramp_outcome(a, key, layout) == on_ramp_outcome(b, key, layout),
{
}

} // verus!
