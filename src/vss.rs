//! The Feldman sharing protocol: the session's secret polynomial, the
//! shares derived from it, the published commitments, and the check of one
//! share against them.

use vstd::prelude::*;
use crate::error::VssError;
use crate::field::{all_wf, dot, eval_poly, fr_add, fr_modulus, gen_pow_tau, lemma_dot_powers, poly_value, powers, values, Scalar};
use vstd::arithmetic::div_mod::lemma_add_mod_noop;
use crate::limbs::{lemma_limbs_value_nonneg, limbs_value};
use crate::group::{g1_add, g1_identity, g1_mul, g1_scalar_mul, g1_sum, identity, Point, PointModel};

verus! {

/// The models of a sequence of points.
pub open spec fn points(v: Seq<Point>) -> Seq<PointModel> {
    v.map_values(|p: Point| p@)
}

/// Every point of the sequence is well formed.
pub open spec fn all_points_wf(v: Seq<Point>) -> bool {
    forall|i: int| 0 <= i < v.len() ==> #[trigger] v[i].wf()
}

/// The group sum of c[i] scaled by w[i] over the first k indices, starting
/// from the identity.
pub open spec fn weighted_sum(c: Seq<PointModel>, w: Seq<int>, k: int) -> PointModel
    decreases k,
{
    if k <= 0 {
        identity()
    } else {
        g1_sum(weighted_sum(c, w, k - 1), g1_scalar_mul(c[k - 1], w[k - 1]))
    }
}

/// The Feldman check: value times the generator equals the commitments
/// weighted by the powers of the share identifier.
pub open spec fn share_accepted(
    n: nat,
    commitments: Seq<PointModel>,
    generator: PointModel,
    id: int,
    value: int,
) -> bool {
    g1_scalar_mul(generator, value) == weighted_sum(commitments, powers(n, id), n as int)
}

/// The commitments to the coefficients c under the generator g.
pub open spec fn commitments_of(c: Seq<int>, g: PointModel) -> Seq<PointModel> {
    Seq::new(c.len(), |i: int| g1_scalar_mul(g, c[i]))
}

/// Every integer of the sequence is a field element.
pub open spec fn all_in_field(c: Seq<int>) -> bool {
    forall|i: int| 0 <= i < c.len() ==> 0 <= #[trigger] c[i] < fr_modulus()
}

/// Scalar multiplication of g sends zero to the identity and the field's
/// addition and multiplication to the group's: what holds when g generates
/// a group of order r.
pub open spec fn scalar_mul_is_linear(g: PointModel) -> bool {
    &&& g1_scalar_mul(g, 0) == identity()
    &&& forall|a: int, b: int|
        0 <= a < fr_modulus() && 0 <= b < fr_modulus() ==> #[trigger] g1_sum(
            g1_scalar_mul(g, a),
            g1_scalar_mul(g, b),
        ) == g1_scalar_mul(g, (a + b) % fr_modulus())
    &&& forall|a: int, b: int|
        0 <= a < fr_modulus() && 0 <= b < fr_modulus() ==> #[trigger] g1_scalar_mul(
            g1_scalar_mul(g, a),
            b,
        ) == g1_scalar_mul(g, (a * b) % fr_modulus())
}

/// Scalar multiplication of g tells field elements apart.
pub open spec fn scalar_mul_is_injective(g: PointModel) -> bool {
    forall|a: int, b: int|
        0 <= a < fr_modulus() && 0 <= b < fr_modulus() && #[trigger] g1_scalar_mul(g, a)
            == #[trigger] g1_scalar_mul(g, b) ==> a == b
}

/// Under a linear scalar multiplication, the commitments weighted by w sum
/// to the generator times the inner product of the coefficients and w.
proof fn lemma_weighted_sum_linear(c: Seq<int>, g: PointModel, w: Seq<int>, k: int)
    requires
        scalar_mul_is_linear(g),
        all_in_field(c),
        all_in_field(w),
        0 <= k <= c.len(),
        k <= w.len(),
    ensures
        weighted_sum(commitments_of(c, g), w, k) == g1_scalar_mul(g, dot(c, w, k) % fr_modulus()),
    decreases k,
{
    let m = fr_modulus();
    if k > 0 {
        lemma_weighted_sum_linear(c, g, w, k - 1);
        let d = dot(c, w, k - 1);
        let e = c[k - 1] * w[k - 1];
        assert(0 <= c[k - 1] < m && 0 <= w[k - 1] < m);
        assert(commitments_of(c, g)[k - 1] == g1_scalar_mul(g, c[k - 1]));
        assert(g1_scalar_mul(g1_scalar_mul(g, c[k - 1]), w[k - 1]) == g1_scalar_mul(g, e % m));
        assert(g1_sum(g1_scalar_mul(g, d % m), g1_scalar_mul(g, e % m)) == g1_scalar_mul(
            g,
            (d % m + e % m) % m,
        ));
        lemma_add_mod_noop(d, e, m);
    } else {
        assert(dot(c, w, 0) == 0);
        vstd::arithmetic::div_mod::lemma_small_mod(0, m as nat);
    }
}

/// An honestly computed share passes the check against honestly computed
/// commitments, for every identifier, when scalar multiplication of the
/// generator is linear.
pub proof fn lemma_honest_share_accepted(c: Seq<int>, g: PointModel, id: int)
    requires
        scalar_mul_is_linear(g),
        all_in_field(c),
        0 <= id < fr_modulus(),
    ensures
        share_accepted(c.len(), commitments_of(c, g), g, id, poly_value(c, id)),
{
    let w = powers(c.len(), id);
    assert(all_in_field(w));
    lemma_weighted_sum_linear(c, g, w, c.len() as int);
    lemma_dot_powers(c, id, c.len(), c.len() as int);
}

/// A value other than the polynomial's value at the identifier fails the
/// check, when scalar multiplication of the generator is linear and tells
/// field elements apart.
pub proof fn lemma_wrong_share_rejected(c: Seq<int>, g: PointModel, id: int, value: int)
    requires
        scalar_mul_is_linear(g),
        scalar_mul_is_injective(g),
        all_in_field(c),
        0 <= id < fr_modulus(),
        0 <= value < fr_modulus(),
        value != poly_value(c, id),
    ensures
        !share_accepted(c.len(), commitments_of(c, g), g, id, value),
{
    lemma_honest_share_accepted(c, g, id);
    let e = poly_value(c, id);
    assert(0 <= e < fr_modulus());
    if g1_scalar_mul(g, value) == g1_scalar_mul(g, e) {
        assert(value == e);
    }
}

/// The session's secret polynomial, lowest degree first; the constant term
/// is the secret.
pub open spec fn session_coefficients() -> Seq<int> {
    seq![
        limbs_value(seq![244191530543426610, 720520828823444299, 4838802141286624219, 5486748220229366192]),
        limbs_value(seq![5128491243938708149, 12410504889603684519, 114440034083153143, 6025966292285627197]),
        limbs_value(seq![10381170476281050696, 12955090503790577484, 7799262544131282177, 753528008733440370]),
        limbs_value(seq![8863136069656228814, 7649584259621271954, 7664221162460616245, 4787877853160851641]),
        limbs_value(seq![7733464432215107737, 5123547833311449065, 4226065172503170136, 5245240979296803489]),
        limbs_value(seq![16278686813611388065, 8344949115731120973, 17941159299395598780, 6182014247259980270]),
        limbs_value(seq![6146490059387563585, 11212346368021254720, 10135596652880027548, 997206475089992471]),
        limbs_value(seq![16318200676292134432, 10660121815379785455, 10080736069795390841, 2321540814959345170]),
        limbs_value(seq![15381293441162796052, 4989919200892627542, 2911966137915349480, 2983830105144198883]),
        limbs_value(seq![4627624308949887982, 9908216523468395082, 1208587209396105232, 1341373710690159641]),
        limbs_value(seq![11237586498954051832, 7117092219625095963, 7285879679628513531, 2762580441584558887]),
        limbs_value(seq![10669630872189515931, 698550027049577118, 13895443478478940485, 1550635655529618035]),
        limbs_value(seq![12831547970066299642, 7465703923428141708, 14937841040804074035, 1923192273272750820]),
        limbs_value(seq![4613171006572707331, 8141064846824477521, 11361118413606154514, 6206714441280328134]),
        limbs_value(seq![15979262047036796536, 16034777233795679294, 2612248238230794618, 4299449673915812162]),
        limbs_value(seq![4219184357081844183, 11232270153988453129, 13975262737841853827, 4608838500150248953]),
        limbs_value(seq![14477734492879975396, 5258478807955586324, 8146596782630013973, 2718819100172055784]),
        limbs_value(seq![3181636710743343061, 1347196328803847425, 10205920380615364334, 666749912189136746]),
        limbs_value(seq![766266732310364601, 3637349344693371558, 7357817812138305807, 441288082549318633]),
        limbs_value(seq![9702255642434765716, 4622533184901284063, 14189393995906353713, 1025727776781576942]),
        limbs_value(seq![5979422610408974880, 1333107489287179225, 11775592001683724964, 121376412786987237]),
        limbs_value(seq![12312272484884113724, 959295657350352075, 285082699196424593, 217280983879634360]),
        limbs_value(seq![5122179288200479043, 2172092094481035828, 3728042482800766315, 6185802706923585410]),
        limbs_value(seq![7697493849861747304, 6127611402904708398, 14542107625996987104, 2174593465346805016]),
        limbs_value(seq![12130248847123897897, 10252094290802716592, 2611945563885145754, 5083801073232460302]),
        limbs_value(seq![2873433474438044443, 12792386324581465931, 8422806918189229679, 4769021053835506907]),
        limbs_value(seq![31356928234809457, 1590971461180879998, 2326470500559245428, 7561287654781258921]),
        limbs_value(seq![12730281655431904386, 17078500915541952269, 16078556547078108504, 7670728374271075699]),
        limbs_value(seq![86144737810290777, 2694589024713256737, 2475039180308871656, 2218123155189035903]),
        limbs_value(seq![3391012180106593658, 9481768168150792730, 13655642063917608591, 6843102510054121200]),
        limbs_value(seq![8897579863521300028, 4164269404731891273, 1409080690199302136, 539256831331473328]),
        limbs_value(seq![14451062849184413672, 12593604056303822813, 17430283709752885661, 1594811257229788183]),
    ]
}

/// Returns the session's share count and secret polynomial, lowest degree
/// first; the constant term is the secret.
pub fn secret_encode() -> (r: (usize, Vec<Scalar>))
    ensures
        r.0 == 32,
        r.1.len() == 32,
        all_wf(r.1@),
        values(r.1@) == session_coefficients(),
{
    let mut v: Vec<Scalar> = Vec::new();
    v.push(Scalar::from_limbs_below_top([244191530543426610, 720520828823444299, 4838802141286624219, 5486748220229366192]));
    v.push(Scalar::from_limbs_below_top([5128491243938708149, 12410504889603684519, 114440034083153143, 6025966292285627197]));
    v.push(Scalar::from_limbs_below_top([10381170476281050696, 12955090503790577484, 7799262544131282177, 753528008733440370]));
    v.push(Scalar::from_limbs_below_top([8863136069656228814, 7649584259621271954, 7664221162460616245, 4787877853160851641]));
    v.push(Scalar::from_limbs_below_top([7733464432215107737, 5123547833311449065, 4226065172503170136, 5245240979296803489]));
    v.push(Scalar::from_limbs_below_top([16278686813611388065, 8344949115731120973, 17941159299395598780, 6182014247259980270]));
    v.push(Scalar::from_limbs_below_top([6146490059387563585, 11212346368021254720, 10135596652880027548, 997206475089992471]));
    v.push(Scalar::from_limbs_below_top([16318200676292134432, 10660121815379785455, 10080736069795390841, 2321540814959345170]));
    v.push(Scalar::from_limbs_below_top([15381293441162796052, 4989919200892627542, 2911966137915349480, 2983830105144198883]));
    v.push(Scalar::from_limbs_below_top([4627624308949887982, 9908216523468395082, 1208587209396105232, 1341373710690159641]));
    v.push(Scalar::from_limbs_below_top([11237586498954051832, 7117092219625095963, 7285879679628513531, 2762580441584558887]));
    v.push(Scalar::from_limbs_below_top([10669630872189515931, 698550027049577118, 13895443478478940485, 1550635655529618035]));
    v.push(Scalar::from_limbs_below_top([12831547970066299642, 7465703923428141708, 14937841040804074035, 1923192273272750820]));
    v.push(Scalar::from_limbs_below_top([4613171006572707331, 8141064846824477521, 11361118413606154514, 6206714441280328134]));
    v.push(Scalar::from_limbs_below_top([15979262047036796536, 16034777233795679294, 2612248238230794618, 4299449673915812162]));
    v.push(Scalar::from_limbs_below_top([4219184357081844183, 11232270153988453129, 13975262737841853827, 4608838500150248953]));
    v.push(Scalar::from_limbs_below_top([14477734492879975396, 5258478807955586324, 8146596782630013973, 2718819100172055784]));
    v.push(Scalar::from_limbs_below_top([3181636710743343061, 1347196328803847425, 10205920380615364334, 666749912189136746]));
    v.push(Scalar::from_limbs_below_top([766266732310364601, 3637349344693371558, 7357817812138305807, 441288082549318633]));
    v.push(Scalar::from_limbs_below_top([9702255642434765716, 4622533184901284063, 14189393995906353713, 1025727776781576942]));
    v.push(Scalar::from_limbs_below_top([5979422610408974880, 1333107489287179225, 11775592001683724964, 121376412786987237]));
    v.push(Scalar::from_limbs_below_top([12312272484884113724, 959295657350352075, 285082699196424593, 217280983879634360]));
    v.push(Scalar::from_limbs_below_top([5122179288200479043, 2172092094481035828, 3728042482800766315, 6185802706923585410]));
    v.push(Scalar::from_limbs_below_top([7697493849861747304, 6127611402904708398, 14542107625996987104, 2174593465346805016]));
    v.push(Scalar::from_limbs_below_top([12130248847123897897, 10252094290802716592, 2611945563885145754, 5083801073232460302]));
    v.push(Scalar::from_limbs_below_top([2873433474438044443, 12792386324581465931, 8422806918189229679, 4769021053835506907]));
    v.push(Scalar::from_limbs_below_top([31356928234809457, 1590971461180879998, 2326470500559245428, 7561287654781258921]));
    v.push(Scalar::from_limbs_below_top([12730281655431904386, 17078500915541952269, 16078556547078108504, 7670728374271075699]));
    v.push(Scalar::from_limbs_below_top([86144737810290777, 2694589024713256737, 2475039180308871656, 2218123155189035903]));
    v.push(Scalar::from_limbs_below_top([3391012180106593658, 9481768168150792730, 13655642063917608591, 6843102510054121200]));
    v.push(Scalar::from_limbs_below_top([8897579863521300028, 4164269404731891273, 1409080690199302136, 539256831331473328]));
    v.push(Scalar::from_limbs_below_top([14451062849184413672, 12593604056303822813, 17430283709752885661, 1594811257229788183]));
    proof {
        assert(v@[0].limbs@ =~= seq![244191530543426610, 720520828823444299, 4838802141286624219, 5486748220229366192]);
        assert(v@[1].limbs@ =~= seq![5128491243938708149, 12410504889603684519, 114440034083153143, 6025966292285627197]);
        assert(v@[2].limbs@ =~= seq![10381170476281050696, 12955090503790577484, 7799262544131282177, 753528008733440370]);
        assert(v@[3].limbs@ =~= seq![8863136069656228814, 7649584259621271954, 7664221162460616245, 4787877853160851641]);
        assert(v@[4].limbs@ =~= seq![7733464432215107737, 5123547833311449065, 4226065172503170136, 5245240979296803489]);
        assert(v@[5].limbs@ =~= seq![16278686813611388065, 8344949115731120973, 17941159299395598780, 6182014247259980270]);
        assert(v@[6].limbs@ =~= seq![6146490059387563585, 11212346368021254720, 10135596652880027548, 997206475089992471]);
        assert(v@[7].limbs@ =~= seq![16318200676292134432, 10660121815379785455, 10080736069795390841, 2321540814959345170]);
        assert(v@[8].limbs@ =~= seq![15381293441162796052, 4989919200892627542, 2911966137915349480, 2983830105144198883]);
        assert(v@[9].limbs@ =~= seq![4627624308949887982, 9908216523468395082, 1208587209396105232, 1341373710690159641]);
        assert(v@[10].limbs@ =~= seq![11237586498954051832, 7117092219625095963, 7285879679628513531, 2762580441584558887]);
        assert(v@[11].limbs@ =~= seq![10669630872189515931, 698550027049577118, 13895443478478940485, 1550635655529618035]);
        assert(v@[12].limbs@ =~= seq![12831547970066299642, 7465703923428141708, 14937841040804074035, 1923192273272750820]);
        assert(v@[13].limbs@ =~= seq![4613171006572707331, 8141064846824477521, 11361118413606154514, 6206714441280328134]);
        assert(v@[14].limbs@ =~= seq![15979262047036796536, 16034777233795679294, 2612248238230794618, 4299449673915812162]);
        assert(v@[15].limbs@ =~= seq![4219184357081844183, 11232270153988453129, 13975262737841853827, 4608838500150248953]);
        assert(v@[16].limbs@ =~= seq![14477734492879975396, 5258478807955586324, 8146596782630013973, 2718819100172055784]);
        assert(v@[17].limbs@ =~= seq![3181636710743343061, 1347196328803847425, 10205920380615364334, 666749912189136746]);
        assert(v@[18].limbs@ =~= seq![766266732310364601, 3637349344693371558, 7357817812138305807, 441288082549318633]);
        assert(v@[19].limbs@ =~= seq![9702255642434765716, 4622533184901284063, 14189393995906353713, 1025727776781576942]);
        assert(v@[20].limbs@ =~= seq![5979422610408974880, 1333107489287179225, 11775592001683724964, 121376412786987237]);
        assert(v@[21].limbs@ =~= seq![12312272484884113724, 959295657350352075, 285082699196424593, 217280983879634360]);
        assert(v@[22].limbs@ =~= seq![5122179288200479043, 2172092094481035828, 3728042482800766315, 6185802706923585410]);
        assert(v@[23].limbs@ =~= seq![7697493849861747304, 6127611402904708398, 14542107625996987104, 2174593465346805016]);
        assert(v@[24].limbs@ =~= seq![12130248847123897897, 10252094290802716592, 2611945563885145754, 5083801073232460302]);
        assert(v@[25].limbs@ =~= seq![2873433474438044443, 12792386324581465931, 8422806918189229679, 4769021053835506907]);
        assert(v@[26].limbs@ =~= seq![31356928234809457, 1590971461180879998, 2326470500559245428, 7561287654781258921]);
        assert(v@[27].limbs@ =~= seq![12730281655431904386, 17078500915541952269, 16078556547078108504, 7670728374271075699]);
        assert(v@[28].limbs@ =~= seq![86144737810290777, 2694589024713256737, 2475039180308871656, 2218123155189035903]);
        assert(v@[29].limbs@ =~= seq![3391012180106593658, 9481768168150792730, 13655642063917608591, 6843102510054121200]);
        assert(v@[30].limbs@ =~= seq![8897579863521300028, 4164269404731891273, 1409080690199302136, 539256831331473328]);
        assert(v@[31].limbs@ =~= seq![14451062849184413672, 12593604056303822813, 17430283709752885661, 1594811257229788183]);
        assert(values(v@) =~= session_coefficients());
    }
    (32, v)
}

/// Returns the share identifiers 1, ..., n and the polynomial's value at
/// each, where n is the number of coefficients.
pub fn secret_split(coeffs: &Vec<Scalar>) -> (r: (Vec<Scalar>, Vec<Scalar>))
    requires
        all_wf(coeffs@),
    ensures
        r.0.len() == coeffs.len(),
        r.1.len() == coeffs.len(),
        forall|j: int|
            0 <= j < coeffs.len() ==> (#[trigger] r.0@[j]).wf() && r.0@[j]@ == j + 1 && r.0@[j]@
                != 0,
        forall|j: int|
            0 <= j < coeffs.len() ==> (#[trigger] r.1@[j]).wf() && r.1@[j]@ == poly_value(
                values(coeffs@),
                j + 1,
            ),
{
    let n = coeffs.len();
    let mut share_id: Vec<Scalar> = Vec::new();
    let mut secret_shares: Vec<Scalar> = Vec::new();
    let one = Scalar::one();
    let mut temp_share_id = Scalar::one();
    let mut j: usize = 0;
    while j < n
        invariant
            j <= n,
            share_id.len() == j,
            one.wf(),
            one@ == 1,
            temp_share_id.wf(),
            temp_share_id@ == j + 1,
            forall|k: int| 0 <= k < j ==> (#[trigger] share_id@[k]).wf() && share_id@[k]@ == k + 1,
        decreases n - j,
    {
        share_id.push(temp_share_id);
        let next = fr_add(&temp_share_id, &one);
        proof {
            vstd::arithmetic::div_mod::lemma_small_mod((j + 2) as nat, fr_modulus() as nat);
        }
        temp_share_id = next;
        j = j + 1;
    }
    let mut i: usize = 0;
    while i < n
        invariant
            i <= n,
            n == coeffs.len(),
            share_id.len() == n,
            secret_shares.len() == i,
            all_wf(coeffs@),
            forall|k: int| 0 <= k < n ==> (#[trigger] share_id@[k]).wf() && share_id@[k]@ == k + 1,
            forall|k: int|
                0 <= k < i ==> (#[trigger] secret_shares@[k]).wf() && secret_shares@[k]@
                    == poly_value(values(coeffs@), k + 1),
        decreases n - i,
    {
        let v = eval_poly(coeffs, share_id[i]);
        secret_shares.push(v);
        i = i + 1;
    }
    (share_id, secret_shares)
}

/// Looks up the share of the holder with identifier `user_id`: rejects zero
/// and identifiers past the share count with `OutOfRange`, and otherwise
/// returns the stored identifier and value.
pub fn secret_shares_user(coeffs: &Vec<Scalar>, user_id: Scalar) -> (r: Result<(Scalar, Scalar), VssError>)
    requires
        all_wf(coeffs@),
        user_id.wf(),
    ensures
        r is Err <==> (user_id@ == 0 || user_id@ > coeffs.len()),
        r is Err ==> r->Err_0 == VssError::OutOfRange,
        r is Ok ==> r->Ok_0.0.wf() && r->Ok_0.0@ == user_id@,
        r is Ok ==> r->Ok_0.1.wf() && r->Ok_0.1@ == poly_value(values(coeffs@), user_id@),
{
    let n = coeffs.len() as u64;
    assert(n as int == coeffs.len());
    proof {
        lemma_limbs_value_nonneg(user_id.limbs@);
    }
    if user_id.is_zero() || user_id.exceeds(n) {
        return Err(VssError::OutOfRange);
    }
    let (share_id, secret_share) = secret_split(coeffs);
    let mut ind: usize = 0;
    while ind < share_id.len()
        invariant
            ind <= share_id.len(),
            share_id.len() == coeffs.len(),
            secret_share.len() == coeffs.len(),
            1 <= user_id@ <= coeffs.len(),
            forall|k: int| 0 <= k < ind ==> (#[trigger] share_id@[k])@ != user_id@,
            forall|k: int|
                0 <= k < coeffs.len() ==> (#[trigger] share_id@[k]).wf() && share_id@[k]@ == k + 1,
            forall|k: int|
                0 <= k < coeffs.len() ==> (#[trigger] secret_share@[k]).wf() && secret_share@[k]@
                    == poly_value(values(coeffs@), k + 1),
        decreases share_id.len() - ind,
    {
        if share_id[ind].eq(&user_id) {
            return Ok((share_id[ind], secret_share[ind]));
        }
        ind = ind + 1;
    }
    proof {
        let k = user_id@ - 1;
        assert(share_id@[k]@ == user_id@);
    }
    Err(VssError::OutOfRange)
}

/// Returns what the dealer publishes: the share count, the commitment to
/// each coefficient (the coefficient times the generator), and the
/// generator.
#[allow(non_snake_case)]
pub fn Broadcast_channel(coeffs: &Vec<Scalar>, gen: &Point) -> (r: (usize, Vec<Point>, Point))
    requires
        all_wf(coeffs@),
        gen.wf(),
    ensures
        r.0 == coeffs.len(),
        r.1.len() == coeffs.len(),
        all_points_wf(r.1@),
        forall|i: int|
            0 <= i < coeffs.len() ==> (#[trigger] r.1@[i])@ == g1_scalar_mul(gen@, coeffs@[i]@),
        points(r.1@) == commitments_of(values(coeffs@), gen@),
        r.2.wf(),
        r.2@ == gen@,
{
    let number_of_shares = coeffs.len();
    let mut public_share: Vec<Point> = Vec::new();
    let mut i: usize = 0;
    while i < number_of_shares
        invariant
            i <= number_of_shares,
            number_of_shares == coeffs.len(),
            public_share.len() == i,
            all_wf(coeffs@),
            gen.wf(),
            all_points_wf(public_share@),
            forall|k: int|
                0 <= k < i ==> (#[trigger] public_share@[k])@ == g1_scalar_mul(gen@, coeffs@[k]@),
        decreases number_of_shares - i,
    {
        assert(coeffs@[i as int].wf());
        let c = g1_mul(gen, &coeffs[i]);
        public_share.push(c);
        i = i + 1;
    }
    assert(points(public_share@) =~= commitments_of(values(coeffs@), gen@));
    (number_of_shares, public_share, *gen)
}

/// Checks the share (`share_id_user`, `secret_share_user`) against the
/// published data: `InvariantViolation` when the commitment vector's length
/// is not the share count, `VerificationFailure` when the Feldman check
/// fails, and success when it holds.
pub fn verify(
    number_of_shares: usize,
    public_share: &Vec<Point>,
    gen: &Point,
    share_id_user: Scalar,
    secret_share_user: Scalar,
) -> (r: Result<(), VssError>)
    requires
        all_points_wf(public_share@),
        gen.wf(),
        share_id_user.wf(),
        secret_share_user.wf(),
    ensures
        public_share.len() != number_of_shares ==> r == Err::<(), VssError>(
            VssError::InvariantViolation,
        ),
        public_share.len() == number_of_shares ==> (r is Ok <==> share_accepted(
            number_of_shares as nat,
            points(public_share@),
            gen@,
            share_id_user@,
            secret_share_user@,
        )),
        public_share.len() == number_of_shares && r is Err ==> r->Err_0
            == VssError::VerificationFailure,
{
    if public_share.len() != number_of_shares {
        return Err(VssError::InvariantViolation);
    }
    let lhs = g1_mul(gen, &secret_share_user);
    let share_evals = gen_pow_tau(number_of_shares, share_id_user);
    assert(values(share_evals@).len() == share_evals@.len());
    let ghost c = points(public_share@);
    let ghost w = values(share_evals@);
    let mut rhs = g1_identity();
    let mut i: usize = 0;
    while i < number_of_shares
        invariant
            i <= number_of_shares,
            public_share.len() == number_of_shares,
            share_evals.len() == number_of_shares,
            c == points(public_share@),
            w == values(share_evals@),
            all_points_wf(public_share@),
            all_wf(share_evals@),
            rhs.wf(),
            rhs@ == weighted_sum(c, w, i as int),
        decreases number_of_shares - i,
    {
        assert(public_share@[i as int].wf() && share_evals@[i as int].wf());
        let term = g1_mul(&public_share[i], &share_evals[i]);
        rhs = g1_add(&rhs, &term);
        proof {
            assert(c[i as int] == public_share@[i as int]@);
            assert(w[i as int] == share_evals@[i as int]@);
        }
        i = i + 1;
    }
    if lhs.eq(&rhs) {
        Ok(())
    } else {
        Err(VssError::VerificationFailure)
    }
}

} // verus!
