use rand_chacha::rand_core::{RngCore, SeedableRng};
use rand_chacha::ChaCha8Rng;
use zexe_swap::coin::{alice_key, bob_key, initialize_state};
use zexe_swap::field::FieldElement;
use zexe_swap::randomness::{draw, ChaChaPosition};
use zexe_swap::spend::{
    binding_equalities, coordinate_equalities, make_witness, public_inputs, setup_witness, BindingFault, Equality, Wire,
    WireCounts,
};

const COUNTS: WireCounts = WireCounts {
    commitment_x: 2,
    leaf: 3,
    owner: 1,
    ownership_prf: 1,
    nullifier_prf: 2,
    nullifier_input: 48,
};

#[test]
fn the_ledger_starts_with_empty_records() {
    let records = initialize_state(6);
    assert_eq!(records.len(), 64);
    for record in &records {
        for (i, field) in record.fields.iter().enumerate() {
            assert_eq!(*field, if i == 4 { vec![6] } else { vec![0; 31] });
        }
        assert_eq!(record.blind, vec![0; 31]);
    }
}

#[test]
fn the_players_have_their_keys() {
    let (private, public) = alice_key();
    assert_eq!(private, [20; 32]);
    assert_eq!((public[0], public[30]), (218, 171));
    let (private, public) = bob_key();
    assert_eq!(private, [25; 32]);
    assert_eq!((public[0], public[30]), (217, 77));
}

#[test]
fn draws_follow_the_keystream() {
    let mut rng = ChaCha8Rng::from_seed([3; 32]);
    rng.set_stream(5);
    rng.set_word_pos(61);
    let mut at = ChaChaPosition { seed: [3; 32], stream: 5, word_pos: 61 };
    for _ in 0..3 {
        let mut expected = [0u8; 24];
        rng.fill_bytes(&mut expected);
        assert_eq!(draw(&mut at), expected.to_vec());
        assert_eq!(at.word_pos, rng.get_word_pos());
    }
    assert_eq!(at.word_pos, 79);
    assert_eq!((at.seed, at.stream), ([3; 32], 5));
}

#[test]
fn the_keystream_cycles() {
    let last = (1u128 << 68) - 6;
    let mut at = ChaChaPosition { seed: [1; 32], stream: 0, word_pos: last };
    draw(&mut at);
    assert_eq!(at.word_pos, 0);
    let mut start = ChaCha8Rng::from_seed([1; 32]);
    let mut expected = [0u8; 24];
    start.fill_bytes(&mut expected);
    assert_eq!(draw(&mut at), expected.to_vec());
}

#[test]
fn a_witness_is_drawn_after_two_draws_are_passed_over() {
    let mut rng = ChaCha8Rng::from_seed([0; 32]);
    let mut draws = Vec::new();
    for _ in 0..6 {
        let mut bytes = [0u8; 24];
        rng.fill_bytes(&mut bytes);
        draws.push(bytes.to_vec());
    }
    let mut at = ChaChaPosition { seed: [0; 32], stream: 0, word_pos: 0 };
    let circuit = setup_witness(&mut at, 1, 0);
    assert_eq!(at.word_pos, 36);
    assert_eq!(circuit.index, 0);
    assert_eq!(circuit.coins.len(), 2);
    assert_eq!(circuit.coins[0].fields[0], draws[2]);
    assert_eq!(circuit.coins[0].blind, draws[3]);
    assert_eq!(circuit.coins[1].fields[0], draws[4]);
    assert_eq!(circuit.coins[1].blind, draws[5]);
    assert_eq!(circuit.prf_instance_nullifier.input, draws[2]);
}

#[test]
fn a_witness_spends_the_first_coin() {
    let (e1, b1, e2, b2) = (vec![1; 24], vec![2; 24], vec![3; 24], vec![4; 24]);
    let circuit = make_witness(&e1, &b1, &e2, &b2, 9, 3);
    let alice = alice_key();
    let expected =
        [e1, alice.1.to_vec(), vec![1], vec![15], vec![9], vec![0], vec![0], vec![0; 32]];
    assert_eq!(circuit.record.fields, expected);
    assert_eq!(circuit.record.blind, b1);
    assert_eq!(circuit.coins[0].fields, expected);
    assert_eq!(circuit.coins[1].fields[1], bob_key().1.to_vec());
    assert_eq!(circuit.coins[1].fields[3], vec![22]);
    assert_eq!(circuit.coins[1].blind, b2);
    assert_eq!(circuit.prf_instance_ownership.input, vec![0; 32]);
    assert_eq!(circuit.prf_instance_ownership.key, alice.0);
    assert_eq!(circuit.prf_instance_nullifier.input, vec![15]);
    assert_eq!(circuit.prf_instance_nullifier.key, alice.0);
}

#[test]
fn public_inputs_stand_in_order() {
    let e = |v: u64| FieldElement::from_limbs([v, 0, 0, 0, 0, 0]).unwrap();
    let inputs = public_inputs(e(1), e(2), e(3), e(4), e(5));
    assert_eq!(inputs.iter().map(|x| x.limbs()[0]).collect::<Vec<_>>(), vec![1, 2, 3, 4, 5]);
}

#[test]
fn equalities_bind_the_parts_in_order() {
    let eq = |left, right| Equality { left, right };
    assert_eq!(
        binding_equalities(&COUNTS).unwrap(),
        vec![
            eq(Wire::BlindedX, Wire::PublicInput(0)),
            eq(Wire::BlindedY, Wire::PublicInput(1)),
            eq(Wire::RootX, Wire::PublicInput(2)),
            eq(Wire::RootY, Wire::PublicInput(3)),
            eq(Wire::CommitmentX(0), Wire::Leaf(0)),
            eq(Wire::CommitmentX(1), Wire::Leaf(1)),
            eq(Wire::Owner(0), Wire::OwnershipPrf(0)),
            eq(Wire::NullifierPrf(0), Wire::NullifierInput(0)),
            eq(Wire::NullifierPrf(1), Wire::NullifierInput(1)),
        ]
    );
}

#[test]
fn the_coordinates_are_equated_first() {
    let list = binding_equalities(&COUNTS).unwrap();
    assert_eq!(coordinate_equalities(), list[..4].to_vec());
}

#[test]
fn parts_that_do_not_fit_are_refused() {
    assert_eq!(
        binding_equalities(&WireCounts { leaf: 1, ..COUNTS }),
        Err(BindingFault::LeafTooShort)
    );
    assert_eq!(
        binding_equalities(&WireCounts { ownership_prf: 0, ..COUNTS }),
        Err(BindingFault::OwnershipTooShort)
    );
    assert_eq!(
        binding_equalities(&WireCounts { nullifier_prf: 49, ..COUNTS }),
        Err(BindingFault::NullifierTooShort)
    );
}

#[test]
fn a_nullifier_begins_with_its_function() {
    let prf: Vec<u8> = (0..32).map(|i| 7 * i + 200 % (i + 1)).collect();
    let mut bits = Vec::new();
    for byte in &prf {
        for i in 0..8 {
            bits.push(byte >> i & 1 == 1);
        }
    }
    let limbs = FieldElement::from_bits_le(&bits).unwrap().limbs();
    let mut bytes = Vec::new();
    for limb in limbs {
        bytes.extend_from_slice(&limb.to_le_bytes());
    }
    assert_eq!(bytes[..32], prf[..]);
    assert_eq!(bytes[32..], [0; 16]);
}
