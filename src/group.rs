//! Points of the BLS12-381 G1 group in canonical affine form, their base
//! field coordinates, and the group operations the sharing scheme uses.

use vstd::prelude::*;
use crate::field::Scalar;
use crate::limbs::{lemma_limbs_below, lemma_limbs_injective, limb_base, limb_pow, limbs_value};
use vstd::arithmetic::div_mod::{lemma_add_mod_noop, lemma_mul_mod_noop_left, lemma_small_mod};
use ark_bls12_381::{Fq, Fr, G1Affine, G1Projective};
use ark_ec::group::Group;
use ark_ec::ProjectiveCurve;
use ark_ff::{BigInteger256, BigInteger384, PrimeField, Zero};

verus! {

/// The modulus q of the base field over which G1 is defined.
pub open spec fn fq_modulus() -> int {
    0x1a0111ea397fe69a4b1ba7b6434bacd7 * (limb_base() * limb_base() * limb_base() * limb_base())
        + 0x64774b84f38512bf6730d2a0f6b0f624 * (limb_base() * limb_base())
        + 0x1eabfffeb153ffffb9feffffffffaaab
}

/// A base field element, held as the six little-endian limbs of its
/// canonical integer representative.
#[derive(Clone, Copy, Debug)]
pub struct Coord {
    pub limbs: [u64; 6],
}

impl View for Coord {
    type V = int;

    open spec fn view(&self) -> int {
        limbs_value(self.limbs@)
    }
}

impl Coord {
    /// The representative lies below the modulus.
    pub open spec fn wf(&self) -> bool {
        self@ < fq_modulus()
    }

    /// Whether two coordinates denote one integer.
    pub fn same(&self, o: &Coord) -> (r: bool)
        ensures
            r == (self@ == o@),
    {
        let mut i: usize = 0;
        while i < 6
            invariant
                i <= 6,
                forall|j: int| 0 <= j < i ==> self.limbs@[j] == o.limbs@[j],
            decreases 6 - i,
        {
            if self.limbs[i] != o.limbs[i] {
                proof {
                    if self@ == o@ {
                        lemma_limbs_injective(self.limbs@, o.limbs@);
                    }
                }
                return false;
            }
            i = i + 1;
        }
        assert(self.limbs@ =~= o.limbs@);
        true
    }
}

/// Relies on ark_ff's multiplication of `Fq` elements: the product modulo q.
#[verifier::external_body]
fn fq_mul(a: &Coord, b: &Coord) -> (r: Coord)
    requires
        a.wf(),
        b.wf(),
    ensures
        r@ == (a@ * b@) % fq_modulus(),
{
    let x = Fq::from_repr(BigInteger384(a.limbs)).unwrap();
    let y = Fq::from_repr(BigInteger384(b.limbs)).unwrap();
    Coord { limbs: (x * y).into_repr().0 }
}

/// Relies on ark_ff's addition of `Fq` elements: the sum modulo q.
#[verifier::external_body]
fn fq_add(a: &Coord, b: &Coord) -> (r: Coord)
    requires
        a.wf(),
        b.wf(),
    ensures
        r@ == (a@ + b@) % fq_modulus(),
{
    let x = Fq::from_repr(BigInteger384(a.limbs)).unwrap();
    let y = Fq::from_repr(BigInteger384(b.limbs)).unwrap();
    Coord { limbs: (x + y).into_repr().0 }
}

/// A G1 point in affine form: its coordinates, or the point at infinity.
#[derive(Clone, Copy, Debug)]
pub struct Point {
    pub x: Coord,
    pub y: Coord,
    pub infinity: bool,
}

/// What a point denotes: its two coordinates and the infinity flag.
pub type PointModel = (int, int, bool);

impl View for Point {
    type V = PointModel;

    open spec fn view(&self) -> PointModel {
        (self.x@, self.y@, self.infinity)
    }
}

impl Point {
    /// Both coordinates lie below the modulus.
    pub open spec fn wf(&self) -> bool {
        self.x.wf() && self.y.wf()
    }
}

impl PartialEq for Point {
    fn eq(&self, o: &Point) -> (r: bool) {
        self.infinity == o.infinity && self.x.same(&o.x) && self.y.same(&o.y)
    }
}

impl vstd::std_specs::cmp::PartialEqSpecImpl for Point {
    open spec fn obeys_eq_spec() -> bool {
        true
    }

    open spec fn eq_spec(&self, o: &Point) -> bool {
        self@ == o@
    }
}

/// The curve equation y^2 = x^3 + 4 over the base field; the point at
/// infinity satisfies it by convention.
pub open spec fn on_curve(p: PointModel) -> bool {
    p.2 || (p.1 * p.1) % fq_modulus() == (p.0 * p.0 * p.0 + 4) % fq_modulus()
}

/// Whether the point satisfies the curve equation.
pub fn is_on_curve(p: &Point) -> (r: bool)
    requires
        p.wf(),
    ensures
        r == on_curve(p@),
{
    if p.infinity {
        return true;
    }
    let y2 = fq_mul(&p.y, &p.y);
    let x2 = fq_mul(&p.x, &p.x);
    let x3 = fq_mul(&x2, &p.x);
    let b = Coord { limbs: [4, 0, 0, 0, 0, 0] };
    proof {
        reveal_with_fuel(limbs_value, 7);
        let q = fq_modulus();
        assert(b@ == 4);
        lemma_small_mod(4, q as nat);
        lemma_mul_mod_noop_left(p.x@ * p.x@, p.x@, q);
        lemma_add_mod_noop(p.x@ * p.x@ * p.x@, 4, q);
    }
    let rhs = fq_add(&x3, &b);
    y2.same(&rhs)
}

/// What G1 scalar multiplication returns for a point and a scalar.
pub uninterp spec fn g1_scalar_mul(p: PointModel, k: int) -> PointModel;

/// What G1 addition returns for two points.
pub uninterp spec fn g1_sum(p: PointModel, q: PointModel) -> PointModel;

/// The point at infinity, the identity of G1.
pub open spec fn identity() -> PointModel {
    (0, 1, true)
}

/// Relies on ark_ec's `Group::mul` for G1 and the affine normalisation of
/// its result: the affine form of k times p, coordinates reduced below q.
#[verifier::external_body]
pub(crate) fn g1_mul(p: &Point, k: &Scalar) -> (r: Point)
    requires
        p.wf(),
        k.wf(),
    ensures
        r.wf(),
        r@ == g1_scalar_mul(p@, k@),
{
    let px = Fq::from_repr(BigInteger384(p.x.limbs)).unwrap();
    let py = Fq::from_repr(BigInteger384(p.y.limbs)).unwrap();
    let a = G1Projective::from(G1Affine::new(px, py, p.infinity));
    let s = Fr::from_repr(BigInteger256(k.limbs)).unwrap();
    let r = Group::mul(&a, &s).into_affine();
    Point { x: Coord { limbs: r.x.into_repr().0 }, y: Coord { limbs: r.y.into_repr().0 }, infinity: r.infinity }
}

/// Relies on ark_ec's addition of G1 points in projective form and the
/// affine normalisation of the sum.
#[verifier::external_body]
pub(crate) fn g1_add(p: &Point, q: &Point) -> (r: Point)
    requires
        p.wf(),
        q.wf(),
    ensures
        r.wf(),
        r@ == g1_sum(p@, q@),
{
    let px = Fq::from_repr(BigInteger384(p.x.limbs)).unwrap();
    let py = Fq::from_repr(BigInteger384(p.y.limbs)).unwrap();
    let qx = Fq::from_repr(BigInteger384(q.x.limbs)).unwrap();
    let qy = Fq::from_repr(BigInteger384(q.y.limbs)).unwrap();
    let mut s = G1Projective::from(G1Affine::new(px, py, p.infinity));
    s += &G1Projective::from(G1Affine::new(qx, qy, q.infinity));
    let r = s.into_affine();
    Point { x: Coord { limbs: r.x.into_repr().0 }, y: Coord { limbs: r.y.into_repr().0 }, infinity: r.infinity }
}

/// Relies on ark_ec's `Zero::zero` for affine G1 points: the point at
/// infinity, with coordinates zero and one.
#[verifier::external_body]
pub(crate) fn g1_identity() -> (r: Point)
    ensures
        r@ == identity(),
{
    let z = G1Affine::zero();
    Point { x: Coord { limbs: z.x.into_repr().0 }, y: Coord { limbs: z.y.into_repr().0 }, infinity: z.infinity }
}

/// The fixed public generator of this sharing session, in affine form.
pub open spec fn generator_model() -> PointModel {
    (
        limbs_value(seq![16005463610770662976, 13160102698494645514, 3812027759409377821, 15247230985304733078, 9579641249151661325, 435705062740853975]),
        limbs_value(seq![989718035495883936, 14273603963915996777, 5075447571441740234, 633986054841508662, 9437273070272486063, 1654769462665101651]),
        false,
    )
}

/// Returns the session's generator: a finite point of G1.
pub fn generator() -> (r: Point)
    ensures
        r.wf(),
        r@ == generator_model(),
{
    let x = Coord { limbs: [16005463610770662976, 13160102698494645514, 3812027759409377821, 15247230985304733078, 9579641249151661325, 435705062740853975] };
    let y = Coord { limbs: [989718035495883936, 14273603963915996777, 5075447571441740234, 633986054841508662, 9437273070272486063, 1654769462665101651] };
    proof {
        lemma_limbs_below(x.limbs@, 0x1a0111ea397fe69a);
        lemma_limbs_below(y.limbs@, 0x1a0111ea397fe69a);
        reveal_with_fuel(limb_pow, 6);
        assert(x.limbs@ =~= seq![16005463610770662976, 13160102698494645514, 3812027759409377821, 15247230985304733078, 9579641249151661325, 435705062740853975]);
        assert(y.limbs@ =~= seq![989718035495883936, 14273603963915996777, 5075447571441740234, 633986054841508662, 9437273070272486063, 1654769462665101651]);
    }
    Point { x, y, infinity: false }
}

} // verus!
