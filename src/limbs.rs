//! Little-endian multi-limb integers: their value and its uniqueness.

use vstd::prelude::*;

verus! {

/// The base of one limb.
pub open spec fn limb_base() -> int {
    0x1_0000_0000_0000_0000
}

/// The integer that little-endian 64-bit limbs denote.
pub open spec fn limbs_value(s: Seq<u64>) -> int
    decreases s.len(),
{
    if s.len() == 0 {
        0
    } else {
        s[0] as int + limb_base() * limbs_value(s.drop_first())
    }
}

pub proof fn lemma_limbs_value_nonneg(s: Seq<u64>)
    ensures
        limbs_value(s) >= 0,
    decreases s.len(),
{
    if s.len() > 0 {
        lemma_limbs_value_nonneg(s.drop_first());
        assert(limb_base() * limbs_value(s.drop_first()) >= 0) by (nonlinear_arith)
            requires
                limbs_value(s.drop_first()) >= 0,
        ;
    }
}

/// Two limb sequences of one length denote one integer only if they are equal.
pub proof fn lemma_limbs_injective(a: Seq<u64>, b: Seq<u64>)
    requires
        a.len() == b.len(),
        limbs_value(a) == limbs_value(b),
    ensures
        a == b,
    decreases a.len(),
{
    if a.len() > 0 {
        let v = limbs_value(a);
        lemma_limbs_value_nonneg(a.drop_first());
        lemma_limbs_value_nonneg(b.drop_first());
        vstd::arithmetic::div_mod::lemma_fundamental_div_mod_converse(
            v,
            limb_base(),
            limbs_value(a.drop_first()),
            a[0] as int,
        );
        vstd::arithmetic::div_mod::lemma_fundamental_div_mod_converse(
            v,
            limb_base(),
            limbs_value(b.drop_first()),
            b[0] as int,
        );
        lemma_limbs_injective(a.drop_first(), b.drop_first());
        assert(a =~= b) by {
            assert forall|i: int| 0 <= i < a.len() implies a[i] == b[i] by {
                if i > 0 {
                    assert(a[i] == a.drop_first()[i - 1]);
                    assert(b[i] == b.drop_first()[i - 1]);
                }
            }
        }
    }
}

/// A sequence whose limbs past the first are zero denotes its first limb;
/// otherwise it denotes at least one full limb base.
pub proof fn lemma_limbs_low(s: Seq<u64>)
    requires
        s.len() >= 1,
    ensures
        (forall|i: int| 1 <= i < s.len() ==> s[i] == 0) ==> limbs_value(s) == s[0] as int,
        (exists|i: int| 1 <= i < s.len() && s[i] != 0) ==> limbs_value(s) >= limb_base(),
    decreases s.len(),
{
    let t = s.drop_first();
    lemma_limbs_value_nonneg(t);
    if t.len() >= 1 {
        lemma_limbs_low(t);
        if forall|i: int| 1 <= i < s.len() ==> s[i] == 0 {
            assert(t[0] == s[1]);
            assert forall|i: int| 1 <= i < t.len() implies t[i] == 0 by {
                assert(t[i] == s[i + 1]);
            }
            assert(limbs_value(t) == 0);
        }
        if exists|i: int| 1 <= i < s.len() && s[i] != 0 {
            let i = choose|i: int| 1 <= i < s.len() && s[i] != 0;
            if i == 1 {
                assert(t[0] != 0);
                assert(limbs_value(t) >= 1) by {
                    lemma_limbs_value_nonneg(t.drop_first());
                    assert(limb_base() * limbs_value(t.drop_first()) >= 0) by (nonlinear_arith)
                        requires
                            limbs_value(t.drop_first()) >= 0,
                    ;
                }
            } else {
                assert(t[i - 1] == s[i]);
            }
            assert(limb_base() * limbs_value(t) >= limb_base()) by (nonlinear_arith)
                requires
                    limbs_value(t) >= 1,
            ;
        }
    } else {
        assert(limbs_value(t) == 0);
    }
}

/// The k-th power of the limb base.
pub open spec fn limb_pow(k: nat) -> int
    decreases k,
{
    if k == 0 {
        1
    } else {
        limb_base() * limb_pow((k - 1) as nat)
    }
}

/// A sequence whose last limb is below t denotes less than t full units of
/// that last limb's weight.
pub proof fn lemma_limbs_below(s: Seq<u64>, t: int)
    requires
        s.len() >= 1,
        s.last() < t,
    ensures
        limbs_value(s) < limb_pow((s.len() - 1) as nat) * t,
    decreases s.len(),
{
    let d = s.drop_first();
    if s.len() == 1 {
        assert(limbs_value(d) == 0);
    } else {
        assert(d.last() == s.last());
        lemma_limbs_below(d, t);
        let rest = limbs_value(d);
        let p = limb_pow((d.len() - 1) as nat);
        let b = limb_base();
        let s0 = s[0] as int;
        assert(s0 + b * rest < b * (p * t)) by (nonlinear_arith)
            requires
                0 <= s0 < b,
                rest + 1 <= p * t,
        ;
        assert(b * (p * t) == (b * p) * t) by (nonlinear_arith);
    }
}

} // verus!
