use ark_bw6_761::{Fr, BW6_761};
use ark_ec::{AffineRepr, CurveGroup};
use ark_ff::{Field, PrimeField};
use ark_groth16::Groth16;
use ark_relations::r1cs::{
    ConstraintSynthesizer, ConstraintSystemRef, LinearCombination, SynthesisError, Variable,
};
use ark_serialize::CanonicalSerialize;
use ark_snark::SNARK;
use rand_chacha::rand_core::SeedableRng;
use rand_chacha::ChaCha8Rng;
use zexe_swap::curve::G1Point;
use zexe_swap::field::FieldElement;
use zexe_swap::groth::{judge, GrothProof, ProofFault};
use zexe_swap::ledger::{AppStateType, OnRampRefusal, SwapRefusal};
use zexe_swap::onramp::{verify_on_ramp, OnRampError, OnRampLayout};
use zexe_swap::swap::{CoinFault, SwapError, SwapLayout, SwapTransaction};

/// Proves that the public inputs are known, which any values satisfy.
struct Known {
    inputs: Vec<Fr>,
}

impl ConstraintSynthesizer<Fr> for Known {
    fn generate_constraints(self, cs: ConstraintSystemRef<Fr>) -> Result<(), SynthesisError> {
        for value in self.inputs {
            let public = cs.new_input_variable(|| Ok(value))?;
            let private = cs.new_witness_variable(|| Ok(value))?;
            cs.enforce_constraint(
                LinearCombination::from(public),
                LinearCombination::from((Fr::ONE, Variable::One)),
                LinearCombination::from(private),
            )?;
        }
        Ok(())
    }
}

fn element(value: Fr) -> FieldElement {
    FieldElement::from_limbs(value.into_bigint().0).unwrap()
}

/// A key and one proof for each list of public inputs.
fn prove(statements: &[Vec<Fr>]) -> (Vec<u8>, Vec<GrothProof>) {
    let mut rng = ChaCha8Rng::from_seed([7; 32]);
    let shape = Known { inputs: statements[0].clone() };
    let (pk, vk) = Groth16::<BW6_761>::circuit_specific_setup(shape, &mut rng).unwrap();
    let mut key = Vec::new();
    vk.serialize_uncompressed(&mut key).unwrap();
    let mut proofs = Vec::new();
    for inputs in statements {
        let circuit = Known { inputs: inputs.clone() };
        let proved = Groth16::<BW6_761>::prove(&pk, circuit, &mut rng).unwrap();
        let mut proof = Vec::new();
        proved.serialize_uncompressed(&mut proof).unwrap();
        let public_inputs = inputs.iter().map(|v| element(*v)).collect();
        proofs.push(GrothProof { proof, public_inputs });
    }
    (key, proofs)
}

fn multiple(k: u64) -> ark_bls12_377::G1Affine {
    ark_bls12_377::G1Affine::generator().mul_bigint([k]).into_affine()
}

fn point(k: u64) -> G1Point {
    let p = multiple(k);
    G1Point { x: element(p.x), y: element(p.y), infinity: p.infinity }
}

fn coordinates(points: &[u64]) -> Vec<Fr> {
    points.iter().flat_map(|k| [multiple(*k).x, multiple(*k).y]).collect()
}

#[test]
fn a_verdict_is_judged() {
    assert_eq!(judge(None), Err(ProofFault::Malformed));
    assert_eq!(judge(Some(false)), Err(ProofFault::Rejected));
    assert_eq!(judge(Some(true)), Ok(()));
}

#[test]
fn a_proof_holds_for_its_public_inputs_only() {
    let (key, mut proofs) = prove(&[vec![Fr::from(11u64), Fr::from(13u64)]]);
    let mut proof = proofs.pop().unwrap();
    assert_eq!(proof.verify(&key), Ok(()));
    proof.public_inputs[1] = element(Fr::from(14u64));
    assert_eq!(proof.verify(&key), Err(ProofFault::Rejected));
    proof.public_inputs.pop();
    assert_eq!(proof.verify(&key), Err(ProofFault::Malformed));
}

#[test]
fn bytes_that_are_no_proof_are_malformed() {
    let proof = GrothProof { proof: vec![1, 2, 3], public_inputs: vec![] };
    assert_eq!(proof.verify(&vec![]), Err(ProofFault::Malformed));
    let (key, proofs) = prove(&[vec![Fr::from(5u64)]]);
    let short = GrothProof {
        proof: proofs[0].proof[1..].to_vec(),
        public_inputs: vec![element(Fr::from(5u64))],
    };
    assert_eq!(short.verify(&key), Err(ProofFault::Malformed));
}

#[test]
fn an_on_ramp_proof_yields_its_coin() {
    let mut statement = coordinates(&[9]);
    statement.push(Fr::from(1u64));
    let (key, mut proofs) = prove(&[statement]);
    let proof = proofs.pop().unwrap();
    let coin = verify_on_ramp(&proof, &key, &OnRampLayout { coin_x: 0, coin_y: 1 }).unwrap();
    assert!(coin.equals(&point(9)));
    assert_eq!(
        verify_on_ramp(&proof, &key, &OnRampLayout { coin_x: 0, coin_y: 2 }).unwrap_err(),
        OnRampError::Coin(CoinFault::NotACommitment)
    );
    assert_eq!(
        verify_on_ramp(&proof, &key, &OnRampLayout { coin_x: 0, coin_y: 3 }).unwrap_err(),
        OnRampError::Coin(CoinFault::MissingPublicInput)
    );
}

#[test]
fn an_on_ramp_proof_that_fails_yields_no_coin() {
    let (key, mut proofs) = prove(&[coordinates(&[9])]);
    let mut proof = proofs.pop().unwrap();
    proof.public_inputs[0] = point(8).x;
    proof.public_inputs[1] = point(8).y;
    assert_eq!(
        verify_on_ramp(&proof, &key, &OnRampLayout { coin_x: 0, coin_y: 1 }).unwrap_err(),
        OnRampError::Proof(ProofFault::Rejected)
    );
}

const LAYOUT: SwapLayout = SwapLayout {
    placeholder_refund_x: 0,
    placeholder_refund_y: 1,
    placeholder_output_x: 2,
    placeholder_output_y: 3,
    blinded_input_x: 4,
    blinded_input_y: 5,
};

/// Two participants; the amount's generator is 100, and the corrections are 2 and 0.
fn swap() -> (Vec<u8>, SwapTransaction) {
    let (key, local_proofs) = prove(&[coordinates(&[10, 20, 30]), coordinates(&[11, 21, 31])]);
    let tx = SwapTransaction {
        local_proofs,
        placeholder_selector: vec![false, true, false, true],
        amount_correction: vec![vec![2, 0, 0, 0], vec![0, 0, 0, 0]],
        input_coins_com: vec![point(30), point(31)],
        output_coins_com: vec![point(20), point(210), point(21), point(11)],
    };
    (key, tx)
}

#[test]
fn a_sound_swap_yields_its_output_coins() {
    let (key, tx) = swap();
    let coins = tx.verify(&key, &LAYOUT, &point(100)).unwrap();
    assert_eq!(coins.len(), 4);
    for (coin, expected) in coins.iter().zip([20, 210, 21, 11]) {
        assert!(coin.equals(&point(expected)));
    }
}

#[test]
fn a_swap_with_a_failing_local_proof_is_refused() {
    let (key, mut tx) = swap();
    tx.local_proofs[1].public_inputs[2] = point(22).x;
    tx.output_coins_com.clear();
    assert_eq!(
        tx.verify(&key, &LAYOUT, &point(100)).unwrap_err(),
        SwapError::LocalProof(1, ProofFault::Rejected)
    );
}

#[test]
fn a_swap_with_a_wrong_coin_is_refused() {
    let (key, mut tx) = swap();
    tx.output_coins_com[1] = point(10);
    assert_eq!(
        tx.verify(&key, &LAYOUT, &point(100)).unwrap_err(),
        SwapError::Coin(1, CoinFault::OutputMismatch)
    );
}

/// A ledger without coins, whose records hold multiples from 200 on.
fn ledger(records: u64) -> AppStateType {
    AppStateType::new((0..records).map(|i| point(200 + i)).collect())
}

fn holds(state: &AppStateType, expected: &[u64]) -> bool {
    expected
        .iter()
        .enumerate()
        .all(|(i, k)| state.record(i).unwrap().equals(&point(*k)))
        && state.record(expected.len()).is_none()
}

#[test]
fn a_settled_swap_fills_the_next_records() {
    let (key, tx) = swap();
    let mut state = ledger(6);
    state.add_coin(point(1)).unwrap();
    assert_eq!(state.settle_swap(&tx, &key, &LAYOUT, &point(100), true), Ok(1));
    assert_eq!(state.num_coins(), 5);
    assert!(holds(&state, &[1, 20, 210, 21, 11, 205]));
}

#[test]
fn a_swap_is_not_settled_without_its_joint_proof() {
    let (key, tx) = swap();
    let mut state = ledger(4);
    assert_eq!(
        state.settle_swap(&tx, &key, &LAYOUT, &point(100), false),
        Err(SwapRefusal::JointProof)
    );
    assert_eq!(state.num_coins(), 0);
    assert!(holds(&state, &[200, 201, 202, 203]));
}

#[test]
fn a_refused_swap_leaves_the_ledger() {
    let (key, mut tx) = swap();
    tx.input_coins_com[0] = point(31);
    let mut state = ledger(4);
    for joint in [true, false] {
        assert_eq!(
            state.settle_swap(&tx, &key, &LAYOUT, &point(100), joint),
            Err(SwapRefusal::Swap(SwapError::Coin(1, CoinFault::InputMismatch)))
        );
    }
    assert_eq!(state.num_coins(), 0);
    assert!(holds(&state, &[200, 201, 202, 203]));
}

#[test]
fn a_swap_that_does_not_fit_leaves_the_ledger() {
    let (key, tx) = swap();
    let mut state = ledger(3);
    assert_eq!(
        state.settle_swap(&tx, &key, &LAYOUT, &point(100), true),
        Err(SwapRefusal::LedgerFull)
    );
    assert_eq!(state.num_coins(), 0);
    assert!(holds(&state, &[200, 201, 202]));
}

#[test]
fn a_settled_on_ramp_takes_the_next_record() {
    let (key, mut proofs) = prove(&[coordinates(&[9])]);
    let mut proof = proofs.pop().unwrap();
    let layout = OnRampLayout { coin_x: 0, coin_y: 1 };
    let mut state = ledger(2);
    state.add_coin(point(1)).unwrap();
    assert_eq!(state.settle_on_ramp(&proof, &key, &layout), Ok(1));
    assert!(holds(&state, &[1, 9]));
    assert_eq!(
        state.settle_on_ramp(&proof, &key, &layout),
        Err(OnRampRefusal::LedgerFull)
    );
    proof.public_inputs[0] = point(8).x;
    assert_eq!(
        state.settle_on_ramp(&proof, &key, &layout),
        Err(OnRampRefusal::OnRamp(OnRampError::Proof(ProofFault::Rejected)))
    );
    assert_eq!(state.num_coins(), 2);
    assert!(holds(&state, &[1, 9]));
}
