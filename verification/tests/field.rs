use ark_bls12_377::Fq;
use ark_ff::PrimeField;
use zexe_swap::field::{FieldElement, MODULUS_LIMBS};

#[test]
fn modulus_is_that_of_the_base_field() {
    assert_eq!(Fq::MODULUS.0, MODULUS_LIMBS);
    assert_eq!(ark_bw6_761::Fr::MODULUS.0, MODULUS_LIMBS);
}

#[test]
fn limbs_below_the_modulus_are_accepted() {
    let mut limbs = MODULUS_LIMBS;
    assert!(FieldElement::from_limbs(limbs).is_none());
    limbs[0] -= 1;
    assert_eq!(FieldElement::from_limbs(limbs).unwrap().limbs(), limbs);
    limbs = MODULUS_LIMBS;
    limbs[5] += 1;
    limbs[0] = 0;
    assert!(FieldElement::from_limbs(limbs).is_none());
    limbs[5] -= 2;
    limbs[0] = u64::MAX;
    limbs[3] = u64::MAX;
    assert_eq!(FieldElement::from_limbs(limbs).unwrap().limbs(), limbs);
}

#[test]
fn equal_elements_have_equal_limbs() {
    let a = FieldElement::from_limbs([1, 2, 3, 4, 5, 6]).unwrap();
    let b = FieldElement::from_limbs([1, 2, 3, 4, 5, 6]).unwrap();
    let c = FieldElement::from_limbs([1, 2, 3, 4, 5, 7]).unwrap();
    assert!(a.equals(&b));
    assert!(!a.equals(&c));
}

#[test]
fn bits_are_read_least_significant_first() {
    let bits = vec![true, false, true, true];
    assert_eq!(FieldElement::from_bits_le(&bits).unwrap().limbs(), [13, 0, 0, 0, 0, 0]);
    let mut long = vec![false; 65];
    long[64] = true;
    assert_eq!(FieldElement::from_bits_le(&long).unwrap().limbs(), [0, 1, 0, 0, 0, 0]);
    assert_eq!(FieldElement::from_bits_le(&vec![]).unwrap().limbs(), [0; 6]);
}

#[test]
fn bits_beyond_the_limbs_do_not_count() {
    let mut bits = vec![false; 400];
    bits[1] = true;
    bits[390] = true;
    assert_eq!(FieldElement::from_bits_le(&bits).unwrap().limbs(), [2, 0, 0, 0, 0, 0]);
}

#[test]
fn bits_above_the_modulus_are_refused() {
    assert!(FieldElement::from_bits_le(&vec![true; 377]).is_none());
    assert!(FieldElement::from_bits_le(&vec![true; 376]).is_some());
}
