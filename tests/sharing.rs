use ark_bls12_381::{Fq, Fr, G1Affine, G1Projective};
use ark_ec::group::Group;
use ark_ec::short_weierstrass_jacobian::GroupProjective;
use ark_ec::ProjectiveCurve;
use ark_ff::{BigInteger256, BigInteger384, PrimeField};
use feldman_vss::error::VssError;
use feldman_vss::field::{assert_vector_eq, eval_poly, gen_pow_tau, vec_inner_prod, Scalar};
use feldman_vss::group::{generator, is_on_curve, Coord, Point};
use feldman_vss::vss::{secret_encode, secret_shares_user, secret_split, verify, Broadcast_channel};

fn to_fr(s: &Scalar) -> Fr {
    Fr::from_repr(BigInteger256(s.limbs)).unwrap()
}

fn to_affine(p: &Point) -> G1Affine {
    let x = Fq::from_repr(BigInteger384(p.x.limbs)).unwrap();
    let y = Fq::from_repr(BigInteger384(p.y.limbs)).unwrap();
    G1Affine::new(x, y, p.infinity)
}

fn scalars(v: &[u64]) -> Vec<Scalar> {
    v.iter().map(|n| Scalar::from_u64(*n)).collect()
}

fn fixture_session(coeffs: &Vec<Scalar>) -> (usize, Vec<Point>, Point) {
    Broadcast_channel(coeffs, &generator())
}

#[test]
fn generator_check() {
    let gen = generator();
    assert!(!gen.infinity);
    assert!(is_on_curve(&gen));
}

#[test]
fn generator_matches_jacobian_form() {
    let gen_x = Fq::new(BigInteger384([10426916804456345898, 9949436114132101607, 2116649752893656464, 2281674603733731717, 4503335027273037540, 1014192490535040458]));
    let gen_y = Fq::new(BigInteger384([4292764575607675463, 8027277022219580558, 12795195303946612026, 8949592393414167562, 11455238229945451849, 1567632138114374463]));
    let gen_z = Fq::new(BigInteger384([13152357397402124358, 11192454412404304597, 8711262086764406652, 9586804308161134670, 4363440654760793773, 1078801221258719581]));
    let g: G1Projective = GroupProjective::new(gen_x, gen_y, gen_z);
    assert_eq!(g.into_affine(), to_affine(&generator()));
}

#[test]
fn off_curve_point_is_refused() {
    let mut p = generator();
    p.y = Coord { limbs: [1, 0, 0, 0, 0, 0] };
    assert!(!is_on_curve(&p));
    p.infinity = true;
    assert!(is_on_curve(&p));
}

#[test]
fn check_public_share() {
    let (_number_of_shares_dummy, share_poly_coeff) = secret_encode();
    let (number_of_shares, public_share, gen) = fixture_session(&share_poly_coeff);
    assert_eq!(number_of_shares, 32);
    assert_eq!(gen, generator());
    let g = G1Projective::from(to_affine(&gen));
    for i in 0..=number_of_shares - 1 {
        let expected = Group::mul(&g, &to_fr(&share_poly_coeff[i])).into_affine();
        assert_eq!(expected, to_affine(&public_share[i]));
    }
}

#[test]
fn sanity_check() {
    let (_number_of_shares, share_poly_coeff) = secret_encode();
    let (share_id_user, secret_share_user) =
        secret_shares_user(&share_poly_coeff, Scalar::from_u64(2)).unwrap();
    assert_eq!(share_id_user, Scalar::from_u64(2));
    assert_eq!(eval_poly(&share_poly_coeff, share_id_user), secret_share_user);
}

#[test]
fn full_sharing_test() {
    let (_n, share_poly_coeff) = secret_encode();
    let (number_of_shares, public_share, gen) = fixture_session(&share_poly_coeff);
    for i in 0..=31 {
        let (share_id_user, secret_share_user) =
            secret_shares_user(&share_poly_coeff, Scalar::from_u64(i + 1)).unwrap();
        assert_eq!(
            verify(number_of_shares, &public_share, &gen, share_id_user, secret_share_user),
            Ok(())
        );
    }
}

#[test]
fn fixture_coefficients_match_montgomery_form() {
    let (n, coeffs) = secret_encode();
    assert_eq!(n, coeffs.len());
    let first = Fr::new(BigInteger256([11329633224827929176, 17010003931249500884, 3796197003401252062, 1386436274382240223]));
    let last = Fr::new(BigInteger256([7659943871647481019, 8773162376132556714, 12097176403599280652, 6990203513918317471]));
    assert_eq!(to_fr(&coeffs[0]), first);
    assert_eq!(to_fr(&coeffs[31]), last);
}

#[test]
fn known_share_of_holder_thirteen_verifies() {
    let (_n, coeffs) = secret_encode();
    let id = Fr::new(BigInteger256([120259084260, 15510977298029211676, 7326335280343703402, 5909200893219589146]));
    let value = Fr::new(BigInteger256([17556863090070465933, 17483734390907017496, 11275179645852245857, 1659062075969486508]));
    let id = Scalar::from_limbs(id.into_repr().0).unwrap();
    let value = Scalar::from_limbs(value.into_repr().0).unwrap();
    assert_eq!(id, Scalar::from_u64(13));
    assert_eq!(eval_poly(&coeffs, id), value);
    let (n, public_share, gen) = fixture_session(&coeffs);
    assert_eq!(verify(n, &public_share, &gen, id, value), Ok(()));
}

#[test]
fn power_sequence_values() {
    let p = gen_pow_tau(5, Scalar::from_u64(3));
    assert_eq!(p, scalars(&[1, 3, 9, 27, 81]));
    let z = gen_pow_tau(3, Scalar::from_u64(0));
    assert_eq!(z, scalars(&[1, 0, 0]));
    assert!(gen_pow_tau(0, Scalar::from_u64(7)).is_empty());
}

#[test]
fn inner_product_values_and_length_mismatch() {
    let a = scalars(&[1, 2, 3]);
    let b = scalars(&[4, 5, 6]);
    assert_eq!(vec_inner_prod(&a, &b), Ok(Scalar::from_u64(32)));
    assert_eq!(vec_inner_prod(&Vec::new(), &Vec::new()), Ok(Scalar::from_u64(0)));
    assert_eq!(vec_inner_prod(&a, &scalars(&[1, 2])), Err(VssError::InvariantViolation));
}

#[test]
fn inner_product_reduces_modulo_order() {
    // r - 1 squared is 1 modulo r.
    let minus_one = Scalar::from_limbs([0xffffffff00000000, 0x53bda402fffe5bfe, 0x3339d80809a1d805, 0x73eda753299d7d48]).unwrap();
    let a = vec![minus_one];
    assert_eq!(vec_inner_prod(&a, &a), Ok(Scalar::from_u64(1)));
}

#[test]
fn vector_equality() {
    let a = scalars(&[1, 2, 3]);
    assert_eq!(assert_vector_eq(&a, &scalars(&[1, 2, 3])), Ok(true));
    assert_eq!(assert_vector_eq(&a, &scalars(&[1, 2, 4])), Ok(false));
    assert_eq!(assert_vector_eq(&a, &scalars(&[1, 2])), Err(VssError::InvariantViolation));
}

#[test]
fn evaluation_matches_horner() {
    let c = scalars(&[7, 0, 4, 9, 1]);
    for x in [0u64, 1, 2, 5, 1000] {
        let mut h: u64 = 0;
        for k in c.iter().rev() {
            h = h * x + k.limbs[0];
        }
        assert_eq!(eval_poly(&c, Scalar::from_u64(x)), Scalar::from_u64(h));
    }
}

#[test]
fn evaluation_at_zero_is_secret() {
    let (_n, coeffs) = secret_encode();
    assert_eq!(eval_poly(&coeffs, Scalar::from_u64(0)), coeffs[0]);
}

#[test]
fn split_identifiers_are_one_to_n() {
    let (_n, coeffs) = secret_encode();
    let (ids, shares) = secret_split(&coeffs);
    assert_eq!(ids.len(), 32);
    assert_eq!(shares.len(), 32);
    for (j, id) in ids.iter().enumerate() {
        assert!(!id.is_zero());
        assert_eq!(*id, Scalar::from_u64(j as u64 + 1));
        assert_eq!(eval_poly(&coeffs, *id), shares[j]);
    }
}

#[test]
fn lookup_out_of_range() {
    let (n, coeffs) = secret_encode();
    assert_eq!(secret_shares_user(&coeffs, Scalar::from_u64(0)), Err(VssError::OutOfRange));
    assert_eq!(
        secret_shares_user(&coeffs, Scalar::from_u64(n as u64 + 1)),
        Err(VssError::OutOfRange)
    );
    let big = Scalar::from_limbs([0, 1, 0, 0]).unwrap();
    assert_eq!(secret_shares_user(&coeffs, big), Err(VssError::OutOfRange));
    assert!(secret_shares_user(&coeffs, Scalar::from_u64(n as u64)).is_ok());
}

#[test]
fn tampered_share_is_rejected() {
    let (_n, coeffs) = secret_encode();
    let (n, public_share, gen) = fixture_session(&coeffs);
    let (id, value) = secret_shares_user(&coeffs, Scalar::from_u64(5)).unwrap();
    let (_, other) = secret_shares_user(&coeffs, Scalar::from_u64(6)).unwrap();
    assert_eq!(verify(n, &public_share, &gen, id, other), Err(VssError::VerificationFailure));
    assert_eq!(verify(n, &public_share, &gen, Scalar::from_u64(6), value), Err(VssError::VerificationFailure));
}

#[test]
fn verify_with_wrong_commitment_count() {
    let (_n, coeffs) = secret_encode();
    let (n, public_share, gen) = fixture_session(&coeffs);
    let (id, value) = secret_shares_user(&coeffs, Scalar::from_u64(1)).unwrap();
    assert_eq!(verify(n + 1, &public_share, &gen, id, value), Err(VssError::InvariantViolation));
}

#[test]
fn small_fixture_shares_and_checks() {
    // Coefficients 3, 5, 2, 1: the shares at 1..4 are 11, 29, 63, 119, all
    // below the field's modulus.
    let coeffs = scalars(&[3, 5, 2, 1]);
    let expected = [11u64, 29, 63, 119];
    let (ids, shares) = secret_split(&coeffs);
    assert_eq!(ids, scalars(&[1, 2, 3, 4]));
    assert_eq!(shares, scalars(&expected));
    assert_eq!(eval_poly(&coeffs, Scalar::from_u64(0)), Scalar::from_u64(3));
    let (n, public_share, gen) = fixture_session(&coeffs);
    for i in 0..4 {
        assert_eq!(verify(n, &public_share, &gen, ids[i], shares[i]), Ok(()));
        let tampered = Scalar::from_u64(expected[i] + 1);
        assert_eq!(verify(n, &public_share, &gen, ids[i], tampered), Err(VssError::VerificationFailure));
    }
}

#[test]
fn scalar_from_limbs_bounds() {
    let r = [0xffffffff00000001, 0x53bda402fffe5bfe, 0x3339d80809a1d805, 0x73eda753299d7d48];
    assert!(Scalar::from_limbs(r).is_none());
    let below = Scalar::from_limbs([0xffffffff00000000, r[1], r[2], r[3]]).unwrap();
    assert!(below.exceeds(u64::MAX));
    assert!(!Scalar::from_u64(32).exceeds(32));
    assert!(Scalar::from_u64(33).exceeds(32));
}
