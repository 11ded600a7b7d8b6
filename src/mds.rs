//! The linear layer of the Poseidon2 permutation over 64-bit integers: the
//! 4x4 block matrix M4 and the 12x12 external matrix built from it.
use vstd::prelude::*;

verus! {

/// Row `r` of M4 = [[5, 7, 1, 3], [4, 6, 1, 1], [1, 3, 5, 7], [1, 1, 4, 6]]
/// applied to `(x0, x1, x2, x3)`.
pub open spec fn m4_row(x0: int, x1: int, x2: int, x3: int, r: int) -> int {
    if r == 0 {
        5 * x0 + 7 * x1 + x2 + 3 * x3
    } else if r == 1 {
        4 * x0 + 6 * x1 + x2 + x3
    } else if r == 2 {
        x0 + 3 * x1 + 5 * x2 + 7 * x3
    } else {
        x0 + x1 + 4 * x2 + 6 * x3
    }
}

/// Largest entry for which M4 cannot overflow 64 bits.
pub const M4_INPUT_BOUND: u64 = 0x0FFF_FFFF_FFFF_FFFF;

proof fn lemma_shl_is_mul(v: u64, k: u64)
    requires
        k == 1 || k == 2,
        v <= 2 * M4_INPUT_BOUND,
    ensures
        (v << k) as int == v * (if k == 1 { 2int } else { 4int }),
{
    if k == 1 {
        assert((v << 1u64) == v * 2) by (bit_vector)
            requires
                v <= 0x1FFF_FFFF_FFFF_FFFEu64,
        ;
    } else {
        assert((v << 2u64) == v * 4) by (bit_vector)
            requires
                v <= 0x1FFF_FFFF_FFFF_FFFEu64,
        ;
    }
}

/// Multiplies the four entries of `x` by M4, in place.
pub fn matrix_mul_block(x: &mut [u64; 4])
    requires
        forall|i: int| 0 <= i < 4 ==> #[trigger] old(x)[i] <= M4_INPUT_BOUND,
    ensures
        forall|r: int|
            0 <= r < 4 ==> #[trigger] final(x)[r] as int == m4_row(
                old(x)[0] as int,
                old(x)[1] as int,
                old(x)[2] as int,
                old(x)[3] as int,
                r,
            ),
{
    let mut t_2 = x[1];
    let mut t_3 = x[3];
    let t_0 = x[0] + t_2;
    let t_1 = x[2] + t_3;
    proof {
        lemma_shl_is_mul(t_2, 1);
        lemma_shl_is_mul(t_3, 1);
    }
    t_2 = (t_2 << 1) + t_1;
    t_3 = (t_3 << 1) + t_0;
    proof {
        lemma_shl_is_mul(t_1, 2);
        lemma_shl_is_mul(t_0, 2);
    }
    let t_4 = (t_1 << 2) + t_3;
    let t_5 = (t_0 << 2) + t_2;
    let t_6 = t_3 + t_5;
    let t_7 = t_2 + t_4;
    x[0] = t_6;
    x[1] = t_5;
    x[2] = t_7;
    x[3] = t_4;
}

/// Adds `s` to `x`, entry by entry.
pub fn combine_m4_prods(x: &mut [u64; 4], s: [u64; 4])
    requires
        forall|i: int| 0 <= i < 4 ==> #[trigger] old(x)[i] + s[i] <= u64::MAX,
    ensures
        forall|i: int| 0 <= i < 4 ==> #[trigger] final(x)[i] == old(x)[i] + s[i],
{
    x[0] = x[0] + s[0];
    x[1] = x[1] + s[1];
    x[2] = x[2] + s[2];
    x[3] = x[3] + s[3];
}

/// Entry `i` of the external matrix M_E = [[2 M4, M4, M4], [M4, 2 M4, M4],
/// [M4, M4, 2 M4]] applied to `x`.
pub open spec fn external_row(x: [u64; 12], i: int) -> int {
    let r = i % 4;
    let b = i / 4;
    let block = |k: int| m4_row(x[4 * k] as int, x[4 * k + 1] as int, x[4 * k + 2] as int, x[4 * k + 3] as int, r);
    block(b) + block(0) + block(1) + block(2)
}

/// Largest entry for which the external matrix is computed exactly in 64 bits.
pub const EXTERNAL_INPUT_BOUND: u64 = 0xFFFF_FFFF;

/// Multiplies a state of entries of at most 32 bits by the external matrix,
/// in place, with native 64-bit arithmetic.
pub fn external_matrix_with_u64_arithmetic(x: &mut [u64; 12])
    requires
        forall|i: int| 0 <= i < 12 ==> #[trigger] old(x)[i] <= EXTERNAL_INPUT_BOUND,
    ensures
        forall|i: int| 0 <= i < 12 ==> #[trigger] final(x)[i] as int == external_row(*old(x), i),
{
    let ghost x0 = *x;
    let mut b0: [u64; 4] = [x[0], x[1], x[2], x[3]];
    let mut b1: [u64; 4] = [x[4], x[5], x[6], x[7]];
    let mut b2: [u64; 4] = [x[8], x[9], x[10], x[11]];
    matrix_mul_block(&mut b0);
    matrix_mul_block(&mut b1);
    matrix_mul_block(&mut b2);
    proof {
        assert forall|r: int| 0 <= r < 4 implies #[trigger] b0[r] <= 16 * EXTERNAL_INPUT_BOUND && b1[r] <= 16
            * EXTERNAL_INPUT_BOUND && b2[r] <= 16 * EXTERNAL_INPUT_BOUND by {}
    }

    let s0 = b0[0] + b1[0] + b2[0];
    let s1 = b0[1] + b1[1] + b2[1];
    let s2 = b0[2] + b1[2] + b2[2];
    let s3 = b0[3] + b1[3] + b2[3];
    let s = [s0, s1, s2, s3];

    combine_m4_prods(&mut b0, s);
    combine_m4_prods(&mut b1, s);
    combine_m4_prods(&mut b2, s);
    *x = [b0[0], b0[1], b0[2], b0[3], b1[0], b1[1], b1[2], b1[3], b2[0], b2[1], b2[2], b2[3]];
    proof {
        assert forall|i: int| 0 <= i < 12 implies #[trigger] x[i] as int == external_row(x0, i) by {
            let r = i % 4;
            assert(0 <= r < 4);
        }
    }
}

} // verus!
