//! The group G1 of BLS12-377, in which coins are committed to: points of the curve
//! `y^2 = x^3 + 1` over the field of [`crate::field`], together with the point at infinity.

use ark_bls12_377::{Fq, G1Affine};
use ark_ec::{AffineRepr, CurveGroup};
use ark_ff::{BigInt, PrimeField};
use vstd::prelude::*;

use crate::field::FieldElement;

verus! {

/// A point: the point at infinity when `infinity` is set, and `(x, y)` otherwise.
#[derive(Clone, Copy, Debug)]
pub struct G1Point {
    pub x: FieldElement,
    pub y: FieldElement,
    pub infinity: bool,
}

impl View for G1Point {
    type V = Option<(nat, nat)>;

    /// The affine coordinates of the point, or `None` at infinity.
    open spec fn view(&self) -> Option<(nat, nat)> {
        if self.infinity {
            None
        } else {
            Some((self.x@, self.y@))
        }
    }
}

/// What points stand for.
pub open spec fn point_values(points: Seq<G1Point>) -> Seq<Option<(nat, nat)>> {
    points.map_values(|p: G1Point| p@)
}

/// The order of the prime-order subgroup that commitments live in.
pub open spec fn group_order() -> nat {
    0x12ab655e9a2ca55660b44d1e5c37b00159aa76fed00000010a11800000000001nat
}

/// Whether the coordinates satisfy the curve equation `y^2 = x^3 + 1`.
pub open spec fn on_curve(x: nat, y: nat) -> bool {
    (y * y) % crate::field::modulus() == (x * x * x + 1) % crate::field::modulus()
}

/// Whether `s` is the slope of the line through two points with different `x`, or of the tangent
/// at one point: the field element which, times the run, is the rise.
pub open spec fn is_slope(s: int, p: (nat, nat), q: (nat, nat)) -> bool {
    let m = crate::field::modulus() as int;
    &&& 0 <= s < m
    &&& if p.0 == q.0 {
        (s * (2 * p.1) - 3 * p.0 * p.0) % m == 0
    } else {
        (s * (q.0 - p.0) - (q.1 - p.1)) % m == 0
    }
}

/// The slope of the line through two points, or of the tangent at one.
pub open spec fn slope(p: (nat, nat), q: (nat, nat)) -> int {
    choose|s: int| is_slope(s, p, q)
}

/// The sum of two points by the chord-and-tangent law.
pub open spec fn g1_sum(p: Option<(nat, nat)>, q: Option<(nat, nat)>) -> Option<(nat, nat)> {
    match (p, q) {
        (None, _) => q,
        (_, None) => p,
        (Some(a), Some(b)) => {
            if a.0 == b.0 && (a.1 != b.1 || a.1 == 0) {
                None
            } else {
                let m = crate::field::modulus() as int;
                let s = slope(a, b);
                let x = (s * s - a.0 - b.0) % m;
                Some((x as nat, ((s * (a.0 - x) - a.1) % m) as nat))
            }
        },
    }
}

/// A point added to itself `k` times, starting from infinity.
pub open spec fn g1_multiple(p: Option<(nat, nat)>, k: nat) -> Option<(nat, nat)>
    decreases k,
{
    if k == 0 {
        None
    } else {
        g1_sum(g1_multiple(p, (k - 1) as nat), p)
    }
}

/// Whether the coordinates are those of a finite point of the prime-order subgroup.
pub open spec fn in_group(x: nat, y: nat) -> bool {
    on_curve(x, y) && g1_multiple(Some((x, y)), group_order()) is None
}

/// `ark_ec`'s `Affine::is_on_curve` for G1 of BLS12-377: it compares `y^2` with `x^3 + 1` in the
/// field.
#[verifier::external_body]
fn ark_is_on_curve(x: &FieldElement, y: &FieldElement) -> (on: bool)
    ensures
        on == on_curve(x@, y@),
{
    G1Affine::new_unchecked(Fq::new(BigInt(x.limbs)), Fq::new(BigInt(y.limbs))).is_on_curve()
}

/// `ark_ec`'s `Affine::is_in_correct_subgroup_assuming_on_curve` for G1 of BLS12-377: it tells
/// whether the point multiplied by the order of the subgroup is the point at infinity.
#[verifier::external_body]
fn ark_is_in_correct_subgroup(x: &FieldElement, y: &FieldElement) -> (inside: bool)
    requires
        on_curve(x@, y@),
    ensures
        inside == (g1_multiple(Some((x@, y@)), group_order()) is None),
{
    G1Affine::new_unchecked(Fq::new(BigInt(x.limbs)), Fq::new(BigInt(y.limbs)))
        .is_in_correct_subgroup_assuming_on_curve()
}

/// `ark_ec`'s `AffineRepr::mul_bigint` followed by `CurveGroup::into_affine`, for G1 of
/// BLS12-377: the point taken as often as the little-endian limbs say. Coordinates come back as
/// integers below the modulus.
#[verifier::external_body]
fn ark_mul_bigint(point: &G1Point, scalar: &Vec<u64>) -> (product: G1Point)
    ensures
        product@ == g1_multiple(point@, crate::field::limbs_value(scalar@)),
{
    let p = G1Affine {
        x: Fq::new(BigInt(point.x.limbs)),
        y: Fq::new(BigInt(point.y.limbs)),
        infinity: point.infinity,
    };
    let r = p.mul_bigint(scalar).into_affine();
    G1Point {
        x: FieldElement { limbs: r.x.into_bigint().0 },
        y: FieldElement { limbs: r.y.into_bigint().0 },
        infinity: r.infinity,
    }
}

/// `ark_ec`'s addition of two affine points followed by `CurveGroup::into_affine`, for G1 of
/// BLS12-377: their sum. Coordinates come back as integers below the modulus.
#[verifier::external_body]
fn ark_add(a: &G1Point, b: &G1Point) -> (sum: G1Point)
    ensures
        sum@ == g1_sum(a@, b@),
{
    let p = G1Affine {
        x: Fq::new(BigInt(a.x.limbs)), y: Fq::new(BigInt(a.y.limbs)), infinity: a.infinity,
    };
    let q = G1Affine {
        x: Fq::new(BigInt(b.x.limbs)), y: Fq::new(BigInt(b.y.limbs)), infinity: b.infinity,
    };
    let r = (p + q).into_affine();
    G1Point {
        x: FieldElement { limbs: r.x.into_bigint().0 },
        y: FieldElement { limbs: r.y.into_bigint().0 },
        infinity: r.infinity,
    }
}

impl G1Point {
    /// The finite point with the given coordinates, if it belongs to the group.
    pub fn new(x: FieldElement, y: FieldElement) -> (point: Option<G1Point>)
        ensures
            match point {
                Some(p) => in_group(x@, y@) && p@ == Some((x@, y@)) && !p.infinity,
                None => !in_group(x@, y@),
            },
            point is Some <==> (y@ * y@) % 0x01ae3a4617c510eac63b05c06ca1493b1a22d9f300f5138f1ef3622fba094800170b5d44300000008508c00000000001nat
                == (x@ * x@ * x@ + 1) % 0x01ae3a4617c510eac63b05c06ca1493b1a22d9f300f5138f1ef3622fba094800170b5d44300000008508c00000000001nat
                && g1_multiple(
                Some((x@, y@)),
                0x12ab655e9a2ca55660b44d1e5c37b00159aa76fed00000010a11800000000001nat,
            ) is None,
            point matches Some(p) ==> !p.infinity && p.x@ == x@ && p.y@ == y@,
    {
        if ark_is_on_curve(&x, &y) && ark_is_in_correct_subgroup(&x, &y) {
            Some(G1Point { x, y, infinity: false })
        } else {
            None
        }
    }

    /// The point taken as often as the little-endian limbs of `scalar` say.
    pub fn times(&self, scalar: &Vec<u64>) -> (product: G1Point)
        ensures
            product@ == g1_multiple(self@, crate::field::limbs_value(scalar@)),
    {
        ark_mul_bigint(self, scalar)
    }

    /// The sum of two points.
    pub fn plus(&self, other: &G1Point) -> (sum: G1Point)
        ensures
            sum@ == g1_sum(self@, other@),
    {
        ark_add(self, other)
    }

    /// Whether two points are the same.
    pub fn equals(&self, other: &G1Point) -> (same: bool)
        ensures
            same == (self@ == other@),
            same <==> (self.infinity && other.infinity) || (!self.infinity && !other.infinity
                && self.x@ == other.x@ && self.y@ == other.y@),
    {
        if self.infinity || other.infinity {
            self.infinity && other.infinity
        } else {
            self.x.equals(&other.x) && self.y.equals(&other.y)
        }
    }
}

/// The group consists of the points with `y^2 = x^3 + 1` that their order takes to infinity.
pub proof fn law_group_membership(x: nat, y: nat)
    ensures
        in_group(x, y) <==> (y * y) % 0x01ae3a4617c510eac63b05c06ca1493b1a22d9f300f5138f1ef3622fba094800170b5d44300000008508c00000000001nat
            == (x * x * x + 1) % 0x01ae3a4617c510eac63b05c06ca1493b1a22d9f300f5138f1ef3622fba094800170b5d44300000008508c00000000001nat
            && g1_multiple(
            Some((x, y)),
            0x12ab655e9a2ca55660b44d1e5c37b00159aa76fed00000010a11800000000001nat,
        ) is None,
{
}

/// A point stands for its coordinates, and for nothing when it is at infinity.
pub proof fn law_points_are_coordinates(points: Seq<G1Point>)
    ensures
        point_values(points).len() == points.len(),
        forall|i: int|
            0 <= i < points.len() ==> #[trigger] point_values(points)[i] == if points[i].infinity {
                None
            } else {
                Some((points[i].x@, points[i].y@))
            },
{
}

/// Infinity is neutral, and opposite points cancel.
pub proof fn law_infinity_and_opposites(p: Option<(nat, nat)>, x: nat, y: nat, z: nat)
    ensures
        g1_sum(p, None) == p,
        g1_sum(None, p) == p,
        y != z ==> g1_sum(Some((x, y)), Some((x, z))) is None,
        g1_sum(Some((x, 0)), Some((x, 0))) is None,
{
}

/// Where the line through two points, or the tangent at one, has a slope, the sum lies on it: the
/// three abscissas add up to the slope's square, and the sum is reflected.
pub proof fn law_sum_lies_on_the_line(a: (nat, nat), b: (nat, nat), s: int)
    requires
        0 <= s < 0x01ae3a4617c510eac63b05c06ca1493b1a22d9f300f5138f1ef3622fba094800170b5d44300000008508c00000000001int,
        a.0 != b.0 ==> (s * (b.0 - a.0) - (b.1 - a.1))
            % 0x01ae3a4617c510eac63b05c06ca1493b1a22d9f300f5138f1ef3622fba094800170b5d44300000008508c00000000001int
            == 0,
        a.0 == b.0 ==> a.1 == b.1 && a.1 != 0 && (s * (2 * a.1) - 3 * a.0 * a.0)
            % 0x01ae3a4617c510eac63b05c06ca1493b1a22d9f300f5138f1ef3622fba094800170b5d44300000008508c00000000001int
            == 0,
    ensures
        g1_sum(Some(a), Some(b)) matches Some(c) && exists|t: int|
            {
                &&& #[trigger] is_slope(t, a, b)
                &&& 0 <= t < 0x01ae3a4617c510eac63b05c06ca1493b1a22d9f300f5138f1ef3622fba094800170b5d44300000008508c00000000001int
                &&& a.0 != b.0 ==> (t * (b.0 - a.0) - (b.1 - a.1))
                    % 0x01ae3a4617c510eac63b05c06ca1493b1a22d9f300f5138f1ef3622fba094800170b5d44300000008508c00000000001int
                    == 0
                &&& a.0 == b.0 ==> (t * (2 * a.1) - 3 * a.0 * a.0)
                    % 0x01ae3a4617c510eac63b05c06ca1493b1a22d9f300f5138f1ef3622fba094800170b5d44300000008508c00000000001int
                    == 0
                &&& c.0 == (t * t - a.0 - b.0)
                    % 0x01ae3a4617c510eac63b05c06ca1493b1a22d9f300f5138f1ef3622fba094800170b5d44300000008508c00000000001int
                &&& c.1 == (t * (a.0 - c.0) - a.1)
                    % 0x01ae3a4617c510eac63b05c06ca1493b1a22d9f300f5138f1ef3622fba094800170b5d44300000008508c00000000001int
            },
{
    assert(is_slope(s, a, b));
    assert(is_slope(slope(a, b), a, b));
}

/// Multiples add up one by one: none is infinity, one is the point itself, and each further one
/// adds the point.
pub proof fn law_multiples(p: Option<(nat, nat)>, k: nat)
    ensures
        g1_multiple(p, 0) is None,
        g1_multiple(p, 1) == p,
        g1_multiple(p, k + 1) == g1_sum(g1_multiple(p, k), p),
        g1_multiple(None, k) is None,
    decreases k,
{
    reveal_with_fuel(g1_multiple, 2);
    if k > 0 {
        law_multiples(p, (k - 1) as nat);
    }
}

} // verus!
