//! Elements of the BLS12-381 scalar field and the vector and polynomial
//! arithmetic built on them.

use vstd::prelude::*;
use crate::error::VssError;
use crate::limbs::{lemma_limbs_below, lemma_limbs_injective, lemma_limbs_low, limb_base, limb_pow, limbs_value};
use vstd::arithmetic::div_mod::{lemma_add_mod_noop, lemma_mul_mod_noop_left, lemma_mul_mod_noop_right};
use vstd::arithmetic::power::pow;
use ark_bls12_381::Fr;
use ark_ff::{BigInteger256, PrimeField};

verus! {

/// The order r of the G1 group, which is the modulus of the scalar field.
pub open spec fn fr_modulus() -> int {
    0x73eda753299d7d483339d80809a1d805 * (limb_base() * limb_base())
        + 0x53bda402fffe5bfeffffffff00000001
}

/// A scalar field element, held as the four little-endian limbs of its
/// canonical integer representative.
#[derive(Clone, Copy, Debug)]
pub struct Scalar {
    pub limbs: [u64; 4],
}

impl View for Scalar {
    type V = int;

    open spec fn view(&self) -> int {
        limbs_value(self.limbs@)
    }
}

impl Scalar {
    /// The representative lies below the modulus.
    pub open spec fn wf(&self) -> bool {
        self@ < fr_modulus()
    }

    /// The field element that a machine integer denotes.
    pub fn from_u64(n: u64) -> (r: Scalar)
        ensures
            r.wf(),
            r@ == n as int,
    {
        let r = Scalar { limbs: [n, 0, 0, 0] };
        proof {
            lemma_limbs_low(r.limbs@);
        }
        r
    }

    /// The field element whose canonical representative has the given limbs,
    /// or `None` when they denote an integer not below the modulus.
    pub fn from_limbs(limbs: [u64; 4]) -> (r: Option<Scalar>)
        ensures
            r is Some <==> limbs_value(limbs@) < fr_modulus(),
            r is Some ==> r->Some_0.wf() && r->Some_0@ == limbs_value(limbs@),
    {
        fr_from_repr(limbs)
    }

    /// The field element with the given limbs, when its top limb is low
    /// enough that the integer is certainly below the modulus.
    pub fn from_limbs_below_top(limbs: [u64; 4]) -> (r: Scalar)
        requires
            limbs[3] < 0x73eda753299d7d48,
        ensures
            r.wf(),
            r.limbs == limbs,
    {
        proof {
            lemma_limbs_below(limbs@, 0x73eda753299d7d48);
            reveal_with_fuel(limb_pow, 4);
        }
        Scalar { limbs }
    }

    /// Whether this element, as an integer, is greater than `n`.
    pub fn exceeds(&self, n: u64) -> (r: bool)
        ensures
            r == (self@ > n as int),
    {
        proof {
            lemma_limbs_low(self.limbs@);
            if self.limbs[1] != 0 {
                assert(self.limbs@[1] != 0);
            }
            if self.limbs[2] != 0 {
                assert(self.limbs@[2] != 0);
            }
            if self.limbs[3] != 0 {
                assert(self.limbs@[3] != 0);
            }
        }
        if self.limbs[1] != 0 || self.limbs[2] != 0 || self.limbs[3] != 0 {
            true
        } else {
            self.limbs[0] > n
        }
    }

    /// The additive identity.
    pub fn zero() -> (r: Scalar)
        ensures
            r.wf(),
            r@ == 0,
    {
        Scalar::from_u64(0)
    }

    /// The multiplicative identity.
    pub fn one() -> (r: Scalar)
        ensures
            r.wf(),
            r@ == 1,
    {
        Scalar::from_u64(1)
    }

    /// Whether this element is zero.
    pub fn is_zero(&self) -> (r: bool)
        ensures
            r == (self@ == 0),
    {
        let z = Scalar::zero();
        self.eq(&z)
    }
}

impl PartialEq for Scalar {
    fn eq(&self, o: &Scalar) -> (r: bool) {
        let r = self.limbs[0] == o.limbs[0] && self.limbs[1] == o.limbs[1]
            && self.limbs[2] == o.limbs[2] && self.limbs[3] == o.limbs[3];
        proof {
            if r {
                assert(self.limbs@ =~= o.limbs@);
            } else if self@ == o@ {
                lemma_limbs_injective(self.limbs@, o.limbs@);
            }
        }
        r
    }
}

impl vstd::std_specs::cmp::PartialEqSpecImpl for Scalar {
    open spec fn obeys_eq_spec() -> bool {
        true
    }

    open spec fn eq_spec(&self, o: &Scalar) -> bool {
        self@ == o@
    }
}

/// Relies on ark_ff's multiplication of `Fr` elements: the product modulo r.
#[verifier::external_body]
fn fr_mul(a: &Scalar, b: &Scalar) -> (r: Scalar)
    requires
        a.wf(),
        b.wf(),
    ensures
        r@ == (a@ * b@) % fr_modulus(),
{
    let x = Fr::from_repr(BigInteger256(a.limbs)).unwrap();
    let y = Fr::from_repr(BigInteger256(b.limbs)).unwrap();
    Scalar { limbs: (x * y).into_repr().0 }
}

/// Relies on ark_ff's `PrimeField::from_repr` for `Fr`, which accepts
/// exactly the integers below r, and on `into_repr`, which gives the
/// accepted integer back.
#[verifier::external_body]
fn fr_from_repr(limbs: [u64; 4]) -> (r: Option<Scalar>)
    ensures
        r is Some <==> limbs_value(limbs@) < fr_modulus(),
        r is Some ==> r->Some_0@ == limbs_value(limbs@),
{
    Fr::from_repr(BigInteger256(limbs)).map(|f| Scalar { limbs: f.into_repr().0 })
}

/// Relies on ark_ff's addition of `Fr` elements: the sum modulo r.
#[verifier::external_body]
pub(crate) fn fr_add(a: &Scalar, b: &Scalar) -> (r: Scalar)
    requires
        a.wf(),
        b.wf(),
    ensures
        r@ == (a@ + b@) % fr_modulus(),
{
    let x = Fr::from_repr(BigInteger256(a.limbs)).unwrap();
    let y = Fr::from_repr(BigInteger256(b.limbs)).unwrap();
    Scalar { limbs: (x + y).into_repr().0 }
}

/// The integers that a sequence of field elements denotes.
pub open spec fn values(v: Seq<Scalar>) -> Seq<int> {
    v.map_values(|s: Scalar| s@)
}

/// Every element of the sequence is well formed.
pub open spec fn all_wf(v: Seq<Scalar>) -> bool {
    forall|i: int| 0 <= i < v.len() ==> #[trigger] v[i].wf()
}

/// The field elements x^0, x^1, ..., x^(n-1).
pub open spec fn powers(n: nat, x: int) -> Seq<int> {
    Seq::new(n, |i: int| pow(x, i as nat) % fr_modulus())
}

/// The integer sum of a[i] * b[i] over the first k indices.
pub open spec fn dot(a: Seq<int>, b: Seq<int>, k: int) -> int
    decreases k,
{
    if k <= 0 {
        0
    } else {
        dot(a, b, k - 1) + a[k - 1] * b[k - 1]
    }
}

/// The inner product of two sequences of one length, in the field.
pub open spec fn inner_product(a: Seq<int>, b: Seq<int>) -> int {
    dot(a, b, a.len() as int) % fr_modulus()
}

/// The integer sum of c[i] * x^i over the first k indices.
pub open spec fn poly_sum(c: Seq<int>, x: int, k: int) -> int
    decreases k,
{
    if k <= 0 {
        0
    } else {
        poly_sum(c, x, k - 1) + c[k - 1] * pow(x, (k - 1) as nat)
    }
}

/// The polynomial with coefficients c, lowest degree first, evaluated at x
/// in the field.
pub open spec fn poly_value(c: Seq<int>, x: int) -> int {
    poly_sum(c, x, c.len() as int) % fr_modulus()
}

/// Horner's rule: c[0] + x * (c[1] + x * (c[2] + ...)), over the integers.
pub open spec fn horner(c: Seq<int>, x: int) -> int
    decreases c.len(),
{
    if c.len() == 0 {
        0
    } else {
        c[0] + x * horner(c.drop_first(), x)
    }
}

/// Returns x^0, x^1, ..., x^(max_vec_size - 1) in the field.
pub fn gen_pow_tau(max_vec_size: usize, tau: Scalar) -> (r: Vec<Scalar>)
    requires
        tau.wf(),
    ensures
        all_wf(r@),
        values(r@) == powers(max_vec_size as nat, tau@),
{
    let mut v: Vec<Scalar> = Vec::new();
    let mut p = Scalar::one();
    let mut i: usize = 0;
    proof {
        reveal(pow);
        assert(pow(tau@, 0) == 1);
        vstd::arithmetic::div_mod::lemma_small_mod(1, fr_modulus() as nat);
    }
    while i < max_vec_size
        invariant
            i <= max_vec_size,
            v.len() == i,
            tau.wf(),
            p.wf(),
            p@ == pow(tau@, i as nat) % fr_modulus(),
            forall|j: int| 0 <= j < i ==> (#[trigger] v@[j]).wf() && v@[j]@ == pow(tau@, j as nat) % fr_modulus(),
        decreases max_vec_size - i,
    {
        v.push(p);
        let q = fr_mul(&p, &tau);
        proof {
            reveal(pow);
            lemma_mul_mod_noop_left(pow(tau@, i as nat), tau@, fr_modulus());
            assert(pow(tau@, (i + 1) as nat) == tau@ * pow(tau@, i as nat));
            assert(q@ == pow(tau@, (i + 1) as nat) % fr_modulus());
        }
        p = q;
        i = i + 1;
    }
    assert(values(v@) =~= powers(max_vec_size as nat, tau@));
    v
}

/// Returns the inner product of two vectors of field elements, or
/// `InvariantViolation` when their lengths differ.
pub fn vec_inner_prod(vec1: &Vec<Scalar>, vec2: &Vec<Scalar>) -> (r: Result<Scalar, VssError>)
    requires
        all_wf(vec1@),
        all_wf(vec2@),
    ensures
        r is Err <==> vec1.len() != vec2.len(),
        r is Err ==> r->Err_0 == VssError::InvariantViolation,
        r is Ok ==> r->Ok_0.wf() && r->Ok_0@ == inner_product(values(vec1@), values(vec2@)),
{
    if vec1.len() != vec2.len() {
        return Err(VssError::InvariantViolation);
    }
    let ghost a = values(vec1@);
    let ghost b = values(vec2@);
    let mut result = Scalar::zero();
    let mut i: usize = 0;
    while i < vec1.len()
        invariant
            i <= vec1.len(),
            vec1.len() == vec2.len(),
            a == values(vec1@),
            b == values(vec2@),
            all_wf(vec1@),
            all_wf(vec2@),
            result.wf(),
            result@ == dot(a, b, i as int) % fr_modulus(),
        decreases vec1.len() - i,
    {
        let t = fr_mul(&vec1[i], &vec2[i]);
        let s = fr_add(&result, &t);
        proof {
            assert(vec1@[i as int].wf() && vec2@[i as int].wf());
            assert(a[i as int] == vec1@[i as int]@);
            assert(b[i as int] == vec2@[i as int]@);
            lemma_add_mod_noop(dot(a, b, i as int), a[i as int] * b[i as int], fr_modulus());
        }
        result = s;
        i = i + 1;
    }
    Ok(result)
}

/// Returns whether two vectors of field elements agree at every index, or
/// `InvariantViolation` when their lengths differ.
pub fn assert_vector_eq(vec1: &Vec<Scalar>, vec2: &Vec<Scalar>) -> (r: Result<bool, VssError>)
    ensures
        r is Err <==> vec1.len() != vec2.len(),
        r is Err ==> r->Err_0 == VssError::InvariantViolation,
        r is Ok ==> r->Ok_0 == (values(vec1@) == values(vec2@)),
{
    if vec1.len() != vec2.len() {
        return Err(VssError::InvariantViolation);
    }
    let mut i: usize = 0;
    while i < vec1.len()
        invariant
            i <= vec1.len(),
            vec1.len() == vec2.len(),
            forall|j: int| 0 <= j < i ==> (#[trigger] vec1@[j])@ == vec2@[j]@,
        decreases vec1.len() - i,
    {
        if !vec1[i].eq(&vec2[i]) {
            proof {
                assert(values(vec1@)[i as int] != values(vec2@)[i as int]);
            }
            return Ok(false);
        }
        i = i + 1;
    }
    assert(values(vec1@) =~= values(vec2@));
    Ok(true)
}

/// The polynomial's integer sum splits off its constant term.
proof fn lemma_poly_sum_shift(c: Seq<int>, x: int, k: int)
    requires
        1 <= k <= c.len(),
    ensures
        poly_sum(c, x, k) == c[0] + x * poly_sum(c.drop_first(), x, k - 1),
    decreases k,
{
    let d = c.drop_first();
    reveal(pow);
    if k == 1 {
        assert(poly_sum(d, x, 0) == 0);
        assert(pow(x, 0) == 1);
        assert(poly_sum(c, x, 0) == 0);
        assert(poly_sum(c, x, 1) == c[0] * pow(x, 0));
        assert(x * poly_sum(d, x, 0) == 0);
    } else {
        lemma_poly_sum_shift(c, x, k - 1);
        let p = pow(x, (k - 2) as nat);
        assert(pow(x, (k - 1) as nat) == x * p);
        assert(d[k - 2] == c[k - 1]);
        let a = poly_sum(d, x, k - 2);
        let e = c[k - 1];
        assert(poly_sum(d, x, k - 1) == a + e * p);
        assert(poly_sum(c, x, k) == poly_sum(c, x, k - 1) + e * pow(x, (k - 1) as nat));
        assert(poly_sum(c, x, k - 1) == c[0] + x * a);
        assert(x * (a + e * p) == x * a + e * (x * p)) by (nonlinear_arith);
    }
}

/// The polynomial's integer sum is what Horner's rule computes.
proof fn lemma_poly_sum_horner(c: Seq<int>, x: int)
    ensures
        poly_sum(c, x, c.len() as int) == horner(c, x),
    decreases c.len(),
{
    if c.len() > 0 {
        lemma_poly_sum_shift(c, x, c.len() as int);
        lemma_poly_sum_horner(c.drop_first(), x);
    }
}

/// Taking powers modulo r first does not change the sum modulo r.
pub(crate) proof fn lemma_dot_powers(c: Seq<int>, x: int, n: nat, k: int)
    requires
        0 <= k <= n,
    ensures
        dot(c, powers(n, x), k) % fr_modulus() == poly_sum(c, x, k) % fr_modulus(),
    decreases k,
{
    if k > 0 {
        lemma_dot_powers(c, x, n, k - 1);
        let m = fr_modulus();
        let a = dot(c, powers(n, x), k - 1);
        let b = poly_sum(c, x, k - 1);
        let p = pow(x, (k - 1) as nat);
        assert(powers(n, x)[k - 1] == p % m);
        lemma_add_mod_noop(a, c[k - 1] * (p % m), m);
        lemma_add_mod_noop(b, c[k - 1] * p, m);
        lemma_mul_mod_noop_right(c[k - 1], p, m);
    }
}

/// Evaluating through the power sequence and the inner product gives what
/// Horner's rule gives, reduced into the field.
pub proof fn lemma_evaluate_matches_horner(c: Seq<int>, x: int)
    ensures
        inner_product(c, powers(c.len(), x)) == horner(c, x) % fr_modulus(),
        poly_value(c, x) == horner(c, x) % fr_modulus(),
{
    lemma_dot_powers(c, x, c.len(), c.len() as int);
    lemma_poly_sum_horner(c, x);
}

/// The polynomial at zero is its constant term: the secret.
pub proof fn lemma_evaluate_at_zero(c: Seq<int>)
    requires
        c.len() >= 1,
        0 <= c[0] < fr_modulus(),
    ensures
        inner_product(c, powers(c.len(), 0)) == c[0],
        poly_value(c, 0) == c[0],
{
    lemma_evaluate_matches_horner(c, 0);
    assert(horner(c, 0) == c[0]);
    vstd::arithmetic::div_mod::lemma_small_mod(c[0] as nat, fr_modulus() as nat);
}

/// Evaluates the polynomial with coefficients `vec`, lowest degree first, at
/// `tau`, as the inner product with the powers of `tau`.
pub fn eval_poly(vec: &Vec<Scalar>, tau: Scalar) -> (r: Scalar)
    requires
        all_wf(vec@),
        tau.wf(),
    ensures
        r.wf(),
        r@ == inner_product(values(vec@), powers(vec@.len(), tau@)),
        r@ == poly_value(values(vec@), tau@),
{
    let dom = vec.len();
    let ghost c = values(vec@);
    let powers_v = gen_pow_tau(dom, tau);
    assert(values(powers_v@).len() == powers_v@.len());
    match vec_inner_prod(vec, &powers_v) {
        Ok(e) => {
            proof {
                lemma_dot_powers(c, tau@, dom as nat, dom as int);
            }
            e
        },
        Err(_) => {
            proof {
                assert(false);
            }
            Scalar::zero()
        },
    }
}

} // verus!
