//! Elements of the Goldilocks prime field, p = 2^64 - 2^32 + 1, the field
//! over which trace rows are written.
use vstd::arithmetic::div_mod::{
    lemma_fundamental_div_mod, lemma_mod_multiples_vanish, lemma_mul_mod_noop_general,
    lemma_sub_mod_noop, lemma_small_mod,
};
use vstd::prelude::*;

verus! {

/// The field order p = 2^64 - 2^32 + 1.
pub const ORDER: u64 = 0xFFFF_FFFF_0000_0001;

/// p, as a mathematical integer.
pub open spec fn order() -> int {
    ORDER as int
}

/// A field element. The representation need not be canonical: the element is
/// the residue of the stored integer modulo p.
#[derive(Clone, Copy, Debug)]
pub struct GoldilocksField(pub u64);

impl GoldilocksField {
    /// The residue in `0..p` that the element stands for.
    pub open spec fn value(self) -> int {
        (self.0 as int) % order()
    }

    /// The representation is the residue itself.
    pub open spec fn is_canonical(self) -> bool {
        (self.0 as int) < order()
    }

    pub fn zero() -> (r: Self)
        ensures
            r.0 == 0,
    {
        GoldilocksField(0)
    }

    pub fn one() -> (r: Self)
        ensures
            r.0 == 1,
    {
        GoldilocksField(1)
    }

    pub fn from_bool(b: bool) -> (r: Self)
        ensures
            r.0 == (if b { 1u64 } else { 0u64 }),
    {
        if b {
            GoldilocksField(1)
        } else {
            GoldilocksField(0)
        }
    }

    pub fn from_canonical_u32(n: u32) -> (r: Self)
        ensures
            r.0 == n as u64,
            r.is_canonical(),
    {
        GoldilocksField(n as u64)
    }

    /// The canonical representative of this element.
    pub fn to_canonical_u64(self) -> (r: u64)
        ensures
            r as int == self.value(),
    {
        if self.0 >= ORDER {
            proof {
                lemma_fundamental_div_mod(self.0 as int, order());
                lemma_mod_multiples_vanish(1, self.0 as int - order(), order());
                lemma_small_mod((self.0 - ORDER) as nat, ORDER as nat);
            }
            self.0 - ORDER
        } else {
            proof {
                lemma_small_mod(self.0 as nat, ORDER as nat);
            }
            self.0
        }
    }

    /// Field subtraction.
    pub fn sub(self, rhs: Self) -> (r: Self)
        ensures
            r.is_canonical(),
            r.0 as int == (self.0 as int - rhs.0 as int) % order(),
    {
        let x = self.to_canonical_u64();
        let y = rhs.to_canonical_u64();
        proof {
            lemma_sub_mod_noop(self.0 as int, rhs.0 as int, order());
        }
        if x >= y {
            proof {
                lemma_small_mod((x - y) as nat, ORDER as nat);
            }
            GoldilocksField(x - y)
        } else {
            proof {
                lemma_mod_multiples_vanish(1, x as int - y as int, order());
                lemma_small_mod((ORDER - y + x) as nat, ORDER as nat);
            }
            GoldilocksField(ORDER - y + x)
        }
    }

    /// Field multiplication.
    pub fn mul(self, rhs: Self) -> (r: Self)
        ensures
            r.is_canonical(),
            r.0 as int == (self.0 as int * rhs.0 as int) % order(),
    {
        let a = self.0 as u128;
        let b = rhs.0 as u128;
        assert(a * b <= 0xFFFF_FFFF_FFFF_FFFFu128 * 0xFFFF_FFFF_FFFF_FFFFu128) by (nonlinear_arith)
            requires
                a <= 0xFFFF_FFFF_FFFF_FFFFu128,
                b <= 0xFFFF_FFFF_FFFF_FFFFu128,
        ;
        let prod: u128 = a * b;
        let r: u128 = prod % (ORDER as u128);
        GoldilocksField(r as u64)
    }
}

/// `d` divides `x`.
pub open spec fn divides(d: int, x: int) -> bool {
    x % d == 0
}

/// Some element times `v` is one, modulo p.
pub open spec fn invertible(v: int) -> bool {
    exists|b: int| 0 <= b < order() && #[trigger] ((v * b) % order()) == 1
}

proof fn lemma_divides_combination(d: int, x: int, y: int, b: int, k: int)
    requires
        d > 0,
        divides(d, x),
        divides(d, y),
    ensures
        divides(d, x * b - k * y),
{
    lemma_fundamental_div_mod(x, d);
    lemma_fundamental_div_mod(y, d);
    let xq = x / d;
    let yq = y / d;
    assert(x * b - k * y == d * (xq * b - k * yq)) by (nonlinear_arith)
        requires
            x == d * xq,
            y == d * yq,
    ;
    lemma_mod_multiples_vanish(xq * b - k * yq, 0, d);
}

proof fn lemma_divisor_of_one(d: int)
    requires
        d > 0,
        divides(d, 1),
    ensures
        d == 1,
{
    if d > 1 {
        lemma_small_mod(1, d as nat);
    }
}

impl GoldilocksField {
    /// The multiplicative inverse, if there is one; `None` for zero.
    pub fn try_inverse(self) -> (r: Option<Self>)
        ensures
            self.value() == 0 ==> r is None,
            r matches Some(b) ==> b.is_canonical() && (self.value() * b.value()) % order() == 1,
            invertible(self.value()) ==> r is Some,
    {
        let a = self.to_canonical_u64();
        if a == 0 {
            return None;
        }
        // Extended Euclid on (p, a), tracking only the coefficients of `a`
        // modulo p: old_r == old_s * a and r == s * a, modulo p.
        let mut old_r: u64 = ORDER;
        let mut r: u64 = a;
        let mut old_s = GoldilocksField(0);
        let mut s = GoldilocksField(1);
        proof {
            lemma_small_mod(a as nat, ORDER as nat);
            lemma_small_mod(1, ORDER as nat);
            assert((order() * 0) % order() == 0) by {
                lemma_mod_multiples_vanish(0, 0, order());
            }
            assert forall|d: int| d > 0 && #[trigger] divides(d, old_r as int) && divides(d, r as int)
                implies divides(d, order()) && divides(d, a as int) by {}
        }
        while r != 0
            invariant
                0 < a < ORDER,
                old_s.is_canonical(),
                s.is_canonical(),
                r == 0 ==> old_r > 0,
                (old_s.0 as int * a as int) % order() == (old_r as int) % order(),
                (s.0 as int * a as int) % order() == (r as int) % order(),
                forall|d: int|
                    d > 0 && #[trigger] divides(d, old_r as int) && divides(d, r as int) ==> divides(
                        d,
                        order(),
                    ) && divides(d, a as int),
            decreases r,
        {
            let q = old_r / r;
            let rem = old_r % r;
            let qs = GoldilocksField(q).mul(s);
            let new_s = old_s.sub(qs);
            proof {
                let m = order();
                lemma_fundamental_div_mod(old_r as int, r as int);
                assert(old_r as int == q as int * r as int + rem as int) by (nonlinear_arith)
                    requires
                        old_r as int == r as int * (old_r as int / r as int) + old_r as int % r as int,
                        q as int == old_r as int / r as int,
                        rem as int == old_r as int % r as int,
                ;
                // new_s * a == old_s * a - q * (s * a) == old_r - q * r == rem
                lemma_mul_mod_noop_general(old_s.0 as int - q as int * s.0 as int, a as int, m);
                lemma_mul_mod_noop_general(q as int * s.0 as int, 1, m);
                lemma_sub_mod_noop(old_s.0 as int, q as int * s.0 as int, m);
                assert((new_s.0 as int * a as int) % m == ((old_s.0 as int - q as int * s.0 as int)
                    * a as int) % m) by {
                    lemma_mul_mod_noop_general(new_s.0 as int, a as int, m);
                    lemma_mul_mod_noop_general(old_s.0 as int - qs.0 as int, a as int, m);
                    lemma_sub_mod_noop(old_s.0 as int, qs.0 as int, m);
                    lemma_sub_mod_noop(old_s.0 as int, q as int * s.0 as int, m);
                }
                assert((old_s.0 as int - q as int * s.0 as int) * a as int == old_s.0 as int
                    * a as int - q as int * (s.0 as int * a as int)) by (nonlinear_arith);
                lemma_sub_mod_noop(old_s.0 as int * a as int, q as int * (s.0 as int * a as int), m);
                lemma_mul_mod_noop_general(q as int, s.0 as int * a as int, m);
                lemma_mul_mod_noop_general(q as int, r as int, m);
                lemma_sub_mod_noop(old_r as int, q as int * r as int, m);
                assert forall|d: int|
                    d > 0 && #[trigger] divides(d, r as int) && divides(d, rem as int) implies divides(
                    d,
                    m,
                ) && divides(d, a as int) by {
                    lemma_divides_combination(d, rem as int, r as int, 1, -(q as int));
                    assert(rem as int * 1 - (-(q as int)) * r as int == old_r as int)
                        by (nonlinear_arith)
                        requires
                            old_r as int == q as int * r as int + rem as int,
                    ;
                    assert(divides(d, old_r as int));
                }
            }
            old_r = r;
            r = rem;
            old_s = s;
            s = new_s;
        }
        if old_r == 1 {
            proof {
                lemma_small_mod(1, ORDER as nat);
                lemma_small_mod(old_s.0 as nat, ORDER as nat);
                lemma_mul_mod_noop_general(self.0 as int, old_s.0 as int, order());
                lemma_mul_mod_noop_general(a as int, old_s.0 as int, order());
                assert(a as int * old_s.0 as int == old_s.0 as int * a as int) by (nonlinear_arith);
                assert(self.value() == a as int);
            }
            Some(old_s)
        } else {
            proof {
                let g = old_r as int;
                assert(divides(g, g)) by {
                    lemma_mod_multiples_vanish(1, 0, g);
                }
                assert(divides(g, 0));
                assert(divides(g, order()) && divides(g, a as int));
                if invertible(self.value()) {
                    let b = choose|b: int| 0 <= b < order() && #[trigger] ((self.value() * b)
                        % order()) == 1;
                    lemma_fundamental_div_mod(a as int * b, order());
                    lemma_divides_combination(g, a as int, order(), b, (a as int * b) / order());
                    lemma_divisor_of_one(g);
                }
            }
            None
        }
    }
}

} // verus!
