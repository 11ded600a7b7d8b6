//! The witness that lets a constraint system certify that two words are
//! equal, or not, without branching: limb-wise differences and their
//! inverses scaled by the inverse of the number of differing limbs.
use vstd::arithmetic::div_mod::{lemma_mul_mod_noop_general, lemma_small_mod};
use vstd::prelude::*;

use ethereum_types::U256;

use crate::field::{invertible, order, GoldilocksField};
use crate::traces::CpuColumnsView;
use crate::word::{half_limb, half_limbs};

verus! {

/// The difference of the `j`-th 32-bit halves of `a` and `b`, in the field.
pub open spec fn half_diff(a: U256, b: U256, j: int) -> int {
    (half_limb(a, j) as int - half_limb(b, j) as int) % order()
}

/// How many of the first `k` halves of `a` and `b` differ.
pub open spec fn count_unequal(a: U256, b: U256, k: int) -> int
    decreases k,
{
    if k <= 0 {
        0
    } else {
        count_unequal(a, b, k - 1) + if half_limb(a, k - 1) != half_limb(b, k - 1) {
            1int
        } else {
            0int
        }
    }
}

/// How many of the eight halves of `a` and `b` differ.
pub open spec fn num_unequal(a: U256, b: U256) -> int {
    count_unequal(a, b, 8)
}

pub(crate) proof fn lemma_count_bounds(a: U256, b: U256, k: int)
    requires
        0 <= k,
    ensures
        0 <= count_unequal(a, b, k) <= k,
        (exists|j: int| 0 <= j < k && half_limb(a, j) != half_limb(b, j)) ==> count_unequal(a, b, k) >= 1,
    decreases k,
{
    if k > 0 {
        lemma_count_bounds(a, b, k - 1);
        if exists|j: int| 0 <= j < k && half_limb(a, j) != half_limb(b, j) {
            let j = choose|j: int| 0 <= j < k && half_limb(a, j) != half_limb(b, j);
            if j < k - 1 {
                assert(exists|j: int| 0 <= j < k - 1 && half_limb(a, j) != half_limb(b, j));
            }
        }
    }
}

pub(crate) proof fn lemma_small_invertible(n: int)
    requires
        1 <= n <= 8,
    ensures
        invertible(n),
{
    if n == 1 {
        assert((1int * 1int) % 0xFFFF_FFFF_0000_0001int == 1) by (nonlinear_arith);
        assert((n * 1int) % order() == 1);
    } else if n == 2 {
        assert((2int * 9223372034707292161int) % 0xFFFF_FFFF_0000_0001int == 1) by (nonlinear_arith);
        assert((n * 9223372034707292161int) % order() == 1);
    } else if n == 3 {
        assert((3int * 12297829379609722881int) % 0xFFFF_FFFF_0000_0001int == 1) by (nonlinear_arith);
        assert((n * 12297829379609722881int) % order() == 1);
    } else if n == 4 {
        assert((4int * 13835058052060938241int) % 0xFFFF_FFFF_0000_0001int == 1) by (nonlinear_arith);
        assert((n * 13835058052060938241int) % order() == 1);
    } else if n == 5 {
        assert((5int * 14757395255531667457int) % 0xFFFF_FFFF_0000_0001int == 1) by (nonlinear_arith);
        assert((n * 14757395255531667457int) % order() == 1);
    } else if n == 6 {
        assert((6int * 15372286724512153601int) % 0xFFFF_FFFF_0000_0001int == 1) by (nonlinear_arith);
        assert((n * 15372286724512153601int) % order() == 1);
    } else if n == 7 {
        assert((7int * 2635249152773512046int) % 0xFFFF_FFFF_0000_0001int == 1) by (nonlinear_arith);
        assert((n * 2635249152773512046int) % order() == 1);
    } else if n == 8 {
        assert((8int * 16140901060737761281int) % 0xFFFF_FFFF_0000_0001int == 1) by (nonlinear_arith);
        assert((n * 16140901060737761281int) % order() == 1);
    }
}

proof fn lemma_product_of_inverses(d: int, x: int, n: int, y: int)
    requires
        (d * x) % order() == 1,
        (n * y) % order() == 1,
    ensures
        (d * ((x * y) % order()) * n) % order() == 1,
{
    let p = order();
    assert(d * ((x * y) % p) * n == (d * n) * ((x * y) % p)) by (nonlinear_arith);
    lemma_mul_mod_noop_general(d * n, x * y, p);
    assert((d * n) * (x * y) == (d * x) * (n * y)) by (nonlinear_arith);
    lemma_mul_mod_noop_general(d * x, n * y, p);
    lemma_small_mod(1, p as nat);
}

/// `pinv` is the inverse witness of the pair `val0`, `val1`: zero on each
/// half where they agree and, on each half where they differ (and the
/// difference has an inverse), a value that times the difference and the
/// number of differing halves is one.
pub open spec fn is_pinv_witness(val0: U256, val1: U256, pinv: [GoldilocksField; 8]) -> bool {
    &&& forall|j: int| 0 <= j < 8 ==> (#[trigger] pinv[j]).is_canonical()
    &&& forall|j: int| 0 <= j < 8 && half_limb(val0, j) == half_limb(val1, j) ==> (#[trigger] pinv[j]).0 == 0
    &&& forall|j: int|
        0 <= j < 8 && half_limb(val0, j) != half_limb(val1, j) && invertible(half_diff(val0, val1, j))
            ==> (half_diff(val0, val1, j) * (#[trigger] pinv[j]).0 * num_unequal(val0, val1)) % order() == 1
}

/// Fills the inverse witness for the pair `val0`, `val1`. A half on which the
/// two words agree gets zero; one on which they differ gets the inverse of
/// the difference, divided by the number of differing halves.
pub fn generate_pinv_diff(val0: &U256, val1: &U256, row: &mut CpuColumnsView)
    ensures
        final(row).mem_channels == old(row).mem_channels,
        is_pinv_witness(*val0, *val1, final(row).diff_pinv),
{
    let h0 = half_limbs(val0);
    let h1 = half_limbs(val1);
    let mut n: u64 = 0;
    let mut j: usize = 0;
    while j < 8
        invariant
            j <= 8,
            n as int == count_unequal(*val0, *val1, j as int),
            n <= j,
            forall|i: int| 0 <= i < 8 ==> #[trigger] h0[i] == half_limb(*val0, i) && h1[i] == half_limb(*val1, i),
        decreases 8 - j,
    {
        if h0[j] != h1[j] {
            n = n + 1;
        }
        j = j + 1;
    }
    proof {
        lemma_count_bounds(*val0, *val1, 8);
        lemma_small_mod(n as nat, order() as nat);
        if n >= 1 {
            lemma_small_invertible(n as int);
        }
    }
    let n_inv = match GoldilocksField(n).try_inverse() {
        Some(x) => x,
        None => GoldilocksField::zero(),
    };
    let ghost old_row = *row;
    let mut j: usize = 0;
    while j < 8
        invariant
            j <= 8,
            n as int == num_unequal(*val0, *val1),
            1 <= n ==> (n * n_inv.0) % order() == 1,
            row.mem_channels == old_row.mem_channels,
            forall|i: int| 0 <= i < 8 ==> #[trigger] h0[i] == half_limb(*val0, i) && h1[i] == half_limb(*val1, i),
            forall|i: int| 0 <= i < j ==> (#[trigger] row.diff_pinv[i]).is_canonical(),
            forall|i: int| 0 <= i < j && half_limb(*val0, i) == half_limb(*val1, i) ==> (#[trigger] row.diff_pinv[i]).0 == 0,
            forall|i: int|
                0 <= i < j && half_limb(*val0, i) != half_limb(*val1, i) && invertible(half_diff(*val0, *val1, i))
                    ==> (half_diff(*val0, *val1, i) * (#[trigger] row.diff_pinv[i]).0 * num_unequal(*val0, *val1))
                    % order() == 1,
        decreases 8 - j,
    {
        let d = GoldilocksField::from_canonical_u32(h0[j]).sub(GoldilocksField::from_canonical_u32(h1[j]));
        let d_inv = match d.try_inverse() {
            Some(x) => x,
            None => GoldilocksField::zero(),
        };
        let pinv = d_inv.mul(n_inv);
        proof {
            let dv = half_diff(*val0, *val1, j as int);
            let x0 = h0[j as int] as int;
            let x1 = h1[j as int] as int;
            lemma_small_mod(d.0 as nat, order() as nat);
            assert(d.value() == dv);
            if x0 == x1 {
                assert(dv == 0);
            } else {
                if x0 < x1 {
                    lemma_small_mod((order() + x0 - x1) as nat, order() as nat);
                    vstd::arithmetic::div_mod::lemma_mod_multiples_vanish(1, x0 - x1, order());
                } else {
                    lemma_small_mod((x0 - x1) as nat, order() as nat);
                }
                assert(dv != 0);
                lemma_count_bounds(*val0, *val1, 8);
                assert(half_limb(*val0, j as int) != half_limb(*val1, j as int));
                if invertible(dv) {
                    lemma_small_mod(d_inv.0 as nat, order() as nat);
                    lemma_product_of_inverses(dv, d_inv.0 as int, n as int, n_inv.0 as int);
                }
            }
        }
        row.set_diff_pinv(j, pinv);
        j = j + 1;
    }
}

} // verus!
