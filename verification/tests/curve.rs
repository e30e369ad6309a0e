use ark_bls12_377::G1Affine;
use ark_ec::{AffineRepr, CurveGroup};
use ark_ff::PrimeField;
use zexe_swap::curve::G1Point;
use zexe_swap::field::FieldElement;

fn small(value: u64) -> FieldElement {
    FieldElement::from_limbs([value, 0, 0, 0, 0, 0]).unwrap()
}

fn point(p: G1Affine) -> G1Point {
    G1Point {
        x: FieldElement::from_limbs(p.x.into_bigint().0).unwrap(),
        y: FieldElement::from_limbs(p.y.into_bigint().0).unwrap(),
        infinity: p.infinity,
    }
}

#[test]
fn generator_belongs_to_the_group() {
    let g = point(G1Affine::generator());
    let made = G1Point::new(g.x, g.y).unwrap();
    assert!(made.equals(&g));
    assert!(!made.infinity);
}

#[test]
fn a_point_off_the_curve_is_refused() {
    assert!(G1Point::new(small(1), small(1)).is_none());
}

#[test]
fn a_point_outside_the_subgroup_is_refused() {
    let order_three = G1Affine::new_unchecked(0u64.into(), 1u64.into());
    assert!(order_three.is_on_curve());
    assert!(G1Point::new(small(0), small(1)).is_none());
}

#[test]
fn multiples_are_repeated_sums() {
    let g = point(G1Affine::generator());
    let three = g.plus(&g).plus(&g);
    assert!(g.times(&vec![3]).equals(&three));
    assert!(g.times(&vec![3, 0, 0, 0]).equals(&three));
    assert!(g.times(&vec![1]).equals(&g));
    assert!(three.equals(&point(G1Affine::generator().mul_bigint([3u64]).into_affine())));
    assert!(!three.equals(&g));
}

#[test]
fn zero_times_a_point_is_infinity() {
    let g = point(G1Affine::generator());
    assert!(g.times(&vec![0, 0]).infinity);
    assert!(g.times(&vec![]).infinity);
}

#[test]
fn infinity_is_neutral() {
    let g = point(G1Affine::generator());
    let infinity = point(G1Affine::zero());
    assert!(g.plus(&infinity).equals(&g));
    assert!(infinity.plus(&g).equals(&g));
    assert!(infinity.equals(&G1Point { x: g.x, y: g.y, infinity: true }));
}

#[test]
fn a_point_and_its_opposite_cancel() {
    let g = point(G1Affine::generator());
    let opposite = point(-G1Affine::generator());
    assert!(g.plus(&opposite).infinity);
    assert!(!g.equals(&opposite));
}

#[test]
fn the_group_order_takes_a_point_to_infinity() {
    let g = point(G1Affine::generator());
    let order = ark_bls12_377::Fr::MODULUS.0.to_vec();
    assert_eq!(
        order,
        vec![0x0a11800000000001, 0x59aa76fed0000001, 0x60b44d1e5c37b001, 0x12ab655e9a2ca556]
    );
    assert!(g.times(&order).infinity);
}
