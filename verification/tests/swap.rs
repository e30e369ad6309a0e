use ark_bls12_377::G1Affine;
use ark_ec::{AffineRepr, CurveGroup};
use ark_ff::PrimeField;
use zexe_swap::curve::G1Point;
use zexe_swap::field::FieldElement;
use zexe_swap::groth::GrothProof;
use zexe_swap::swap::{
    check_coin, corrections_used, read_commitment, CoinFault, SwapError, SwapLayout,
    SwapTransaction,
};

const LAYOUT: SwapLayout = SwapLayout {
    placeholder_refund_x: 1,
    placeholder_refund_y: 2,
    placeholder_output_x: 3,
    placeholder_output_y: 4,
    blinded_input_x: 5,
    blinded_input_y: 6,
};

fn point(k: u64) -> G1Point {
    let p = G1Affine::generator().mul_bigint([k]).into_affine();
    G1Point {
        x: FieldElement::from_limbs(p.x.into_bigint().0).unwrap(),
        y: FieldElement::from_limbs(p.y.into_bigint().0).unwrap(),
        infinity: p.infinity,
    }
}

fn local_proof(refund: u64, output: u64, input: u64) -> GrothProof {
    let (r, o, i) = (point(refund), point(output), point(input));
    let first = FieldElement::from_limbs([9, 0, 0, 0, 0, 0]).unwrap();
    GrothProof { proof: vec![], public_inputs: vec![first, r.x, r.y, o.x, o.y, i.x, i.y] }
}

fn sound() -> SwapTransaction {
    SwapTransaction {
        local_proofs: vec![local_proof(10, 20, 30), local_proof(11, 21, 31)],
        placeholder_selector: vec![false, true, false, true],
        amount_correction: vec![vec![3], vec![1, 0]],
        input_coins_com: vec![point(30), point(31)],
        output_coins_com: vec![point(20), point(25), point(21), point(16)],
    }
}

fn fault(tx: &SwapTransaction) -> SwapError {
    tx.check_coins(&LAYOUT, &point(5)).unwrap_err()
}

#[test]
fn coins_of_a_sound_swap_are_listed_in_order() {
    let coins = sound().check_coins(&LAYOUT, &point(5)).unwrap();
    let expected = [20, 25, 21, 16];
    assert_eq!(coins.len(), expected.len());
    for i in 0..coins.len() {
        assert!(coins[i].equals(&point(expected[i])));
    }
}

#[test]
fn a_swap_without_outputs_has_no_coins() {
    let tx = SwapTransaction {
        local_proofs: vec![],
        placeholder_selector: vec![],
        amount_correction: vec![],
        input_coins_com: vec![],
        output_coins_com: vec![],
    };
    assert_eq!(tx.check_coins(&LAYOUT, &point(5)).unwrap().len(), 0);
    assert_eq!(tx.verify(&vec![], &LAYOUT, &point(5)).unwrap().len(), 0);
}

#[test]
fn a_zero_correction_leaves_the_refund() {
    let mut tx = sound();
    tx.amount_correction[0] = vec![0, 0, 0, 0];
    tx.output_coins_com[1] = point(10);
    assert!(tx.check_coins(&LAYOUT, &point(5)).unwrap()[1].equals(&point(10)));
}

#[test]
fn an_output_after_the_last_refund_has_no_local_proof() {
    let mut tx = sound();
    tx.placeholder_selector.push(false);
    tx.output_coins_com.push(point(1));
    assert_eq!(fault(&tx), SwapError::Coin(4, CoinFault::MissingLocalProof));
}

#[test]
fn every_refund_needs_a_correction() {
    let mut tx = sound();
    tx.amount_correction.pop();
    assert_eq!(fault(&tx), SwapError::Coin(3, CoinFault::MissingCorrection));
}

#[test]
fn public_inputs_must_be_there() {
    let mut tx = sound();
    tx.local_proofs[0].public_inputs.truncate(4);
    assert_eq!(fault(&tx), SwapError::Coin(0, CoinFault::MissingPublicInput));
    let mut tx = sound();
    tx.local_proofs[1].public_inputs.truncate(6);
    assert_eq!(fault(&tx), SwapError::Coin(3, CoinFault::MissingPublicInput));
}

#[test]
fn public_inputs_must_be_commitments() {
    let mut tx = sound();
    tx.local_proofs[0].public_inputs[2] = point(10).x;
    assert_eq!(fault(&tx), SwapError::Coin(1, CoinFault::NotACommitment));
}

#[test]
fn the_joint_proof_needs_every_output_coin() {
    let mut tx = sound();
    tx.output_coins_com.truncate(2);
    assert_eq!(fault(&tx), SwapError::Coin(2, CoinFault::MissingOutputCoin));
}

#[test]
fn output_coins_must_match() {
    let mut tx = sound();
    tx.output_coins_com[3] = point(11);
    assert_eq!(fault(&tx), SwapError::Coin(3, CoinFault::OutputMismatch));
    let mut tx = sound();
    tx.output_coins_com[0].infinity = true;
    assert_eq!(fault(&tx), SwapError::Coin(0, CoinFault::OutputMismatch));
}

#[test]
fn the_joint_proof_needs_every_input_coin() {
    let mut tx = sound();
    tx.input_coins_com.pop();
    assert_eq!(fault(&tx), SwapError::Coin(3, CoinFault::MissingInputCoin));
}

#[test]
fn input_coins_must_match() {
    let mut tx = sound();
    tx.input_coins_com.swap(0, 1);
    assert_eq!(fault(&tx), SwapError::Coin(1, CoinFault::InputMismatch));
}

#[test]
fn commitments_are_read_from_public_inputs() {
    let proof = local_proof(10, 20, 30);
    assert!(read_commitment(&proof.public_inputs, 3, 4).unwrap().equals(&point(20)));
    assert_eq!(
        read_commitment(&proof.public_inputs, 3, 7).unwrap_err(),
        CoinFault::MissingPublicInput
    );
    assert_eq!(
        read_commitment(&proof.public_inputs, 4, 3).unwrap_err(),
        CoinFault::NotACommitment
    );
}

#[test]
fn a_coin_is_compared_at_its_index() {
    let coins = vec![point(1), point(2)];
    let (missing, mismatch) = (CoinFault::MissingInputCoin, CoinFault::InputMismatch);
    assert_eq!(check_coin(&point(2), &coins, 1, missing, mismatch), Ok(()));
    assert_eq!(check_coin(&point(2), &coins, 0, missing, mismatch), Err(mismatch));
    assert_eq!(check_coin(&point(2), &coins, 2, missing, mismatch), Err(missing));
}

#[test]
fn one_correction_is_used_for_each_refund() {
    assert_eq!(corrections_used(&vec![]), 0);
    assert_eq!(corrections_used(&vec![false, true, false, true, true]), 3);
}
