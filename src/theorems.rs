//! Facts about the handlers that relate several steps or hold of every
//! input: stack effects of dup and swap, algebra of the bitwise operations,
//! and what the zero-test witness certifies.
use vstd::arithmetic::div_mod::{lemma_add_mod_noop, lemma_mul_mod_noop_general, lemma_small_mod};
use vstd::prelude::*;

use ethereum_types::U256;

use crate::access::from_top;
use crate::eq_iszero::{count_unequal, half_diff, is_pinv_witness, num_unequal};
use crate::field::{invertible, order, GoldilocksField};
use crate::memory::{stack_address, value_after, MemoryAddress, MemoryOp, MemoryOpKind};
use crate::operation::{dup_ops, logic_word, not_word, swap_ops, BinaryLogicOp};
use crate::state::RegistersState;
use crate::word::half_limb;

verus! {

proof fn lemma_value_after_push(m: spec_fn(MemoryAddress) -> U256, ops: Seq<MemoryOp>, op: MemoryOp, a: MemoryAddress)
    ensures
        value_after(m, ops.push(op), a) == if op.kind == MemoryOpKind::Write && op.address == a {
            op.value
        } else {
            value_after(m, ops, a)
        },
{
    assert(ops.push(op).drop_last() =~= ops);
}

proof fn lemma_value_after_empty(m: spec_fn(MemoryAddress) -> U256, a: MemoryAddress)
    ensures
        value_after(m, Seq::<MemoryOp>::empty(), a) == m(a),
{
}

/// After a dup's accesses are applied, every element of the old stack is
/// unchanged and the new top, one slot above the old one, holds the value
/// that was `n` places below the old top.
pub proof fn lemma_dup_stack(n: u8, regs: RegistersState, m: spec_fn(MemoryAddress) -> U256, clock: usize)
    requires
        n + 1 <= regs.stack_len,
        regs.stack_len < u32::MAX,
    ensures
        forall|i: int|
            0 <= i < regs.stack_len ==> value_after(m, dup_ops(n, regs, m, clock), #[trigger] stack_address(regs.context, i))
                == m(stack_address(regs.context, i)),
        value_after(m, dup_ops(n, regs, m, clock), stack_address(regs.context, regs.stack_len as int))
            == m(from_top(regs, n as int)),
{
    let ops = dup_ops(n, regs, m, clock);
    assert(ops =~= Seq::empty().push(ops[0]).push(ops[1]));
    assert forall|a: MemoryAddress| #[trigger] value_after(m, ops, a) == if a == stack_address(
        regs.context,
        regs.stack_len as int,
    ) {
        m(from_top(regs, n as int))
    } else {
        m(a)
    } by {
        lemma_value_after_empty(m, a);
        lemma_value_after_push(m, Seq::empty(), ops[0], a);
        lemma_value_after_push(m, Seq::empty().push(ops[0]), ops[1], a);
    }
}

/// The memory after a swap's accesses are applied, as a function.
pub open spec fn after_swap(n: u8, regs: RegistersState, m: spec_fn(MemoryAddress) -> U256, clock: usize) -> spec_fn(MemoryAddress) -> U256 {
    |a: MemoryAddress| value_after(m, swap_ops(n, regs, m, clock), a)
}

proof fn lemma_swap_effect(n: u8, regs: RegistersState, m: spec_fn(MemoryAddress) -> U256, clock: usize, a: MemoryAddress)
    requires
        n + 2 <= regs.stack_len,
    ensures
        value_after(m, swap_ops(n, regs, m, clock), a) == if a == from_top(regs, 0) {
            m(from_top(regs, n + 1))
        } else if a == from_top(regs, n + 1) {
            m(from_top(regs, 0))
        } else {
            m(a)
        },
{
    let ops = swap_ops(n, regs, m, clock);
    assert(ops =~= Seq::empty().push(ops[0]).push(ops[1]).push(ops[2]).push(ops[3]));
    lemma_value_after_empty(m, a);
    lemma_value_after_push(m, Seq::empty(), ops[0], a);
    lemma_value_after_push(m, Seq::empty().push(ops[0]), ops[1], a);
    lemma_value_after_push(m, Seq::empty().push(ops[0]).push(ops[1]), ops[2], a);
    lemma_value_after_push(m, Seq::empty().push(ops[0]).push(ops[1]).push(ops[2]), ops[3], a);
}

/// A swap undoes itself: applying its accesses, then those of the same swap
/// on the memory that results, restores every slot.
pub proof fn lemma_swap_twice(n: u8, regs: RegistersState, m: spec_fn(MemoryAddress) -> U256, c1: usize, c2: usize)
    requires
        n + 2 <= regs.stack_len,
    ensures
        forall|a: MemoryAddress| #[trigger] after_swap(n, regs, after_swap(n, regs, m, c1), c2)(a) == m(a),
{
    let m1 = after_swap(n, regs, m, c1);
    assert forall|a: MemoryAddress| #[trigger] after_swap(n, regs, m1, c2)(a) == m(a) by {
        lemma_swap_effect(n, regs, m1, c2, a);
        lemma_swap_effect(n, regs, m, c1, a);
        lemma_swap_effect(n, regs, m, c1, from_top(regs, 0));
        lemma_swap_effect(n, regs, m, c1, from_top(regs, n + 1));
    }
}

/// XOR with the same operand twice gives back the first operand.
pub proof fn lemma_xor_involution(a: U256, b: U256)
    ensures
        logic_word(BinaryLogicOp::Xor, logic_word(BinaryLogicOp::Xor, a, b), b) == a,
{
    assert forall|x: u64, y: u64| #[trigger] ((x ^ y) ^ y) == x by {
        assert((x ^ y) ^ y == x) by (bit_vector);
    }
    assert(logic_word(BinaryLogicOp::Xor, logic_word(BinaryLogicOp::Xor, a, b), b).0 =~= a.0);
}

/// AND and OR of a word with itself give the word.
pub proof fn lemma_and_or_idempotent(a: U256)
    ensures
        logic_word(BinaryLogicOp::And, a, a) == a,
        logic_word(BinaryLogicOp::Or, a, a) == a,
{
    assert forall|x: u64| #[trigger] (x & x) == x && (x | x) == x by {
        assert((x & x) == x && (x | x) == x) by (bit_vector);
    }
    assert(logic_word(BinaryLogicOp::And, a, a).0 =~= a.0);
    assert(logic_word(BinaryLogicOp::Or, a, a).0 =~= a.0);
}

/// Complementing twice gives back the word.
pub proof fn lemma_not_involution(a: U256)
    ensures
        not_word(not_word(a)) == a,
{
    assert forall|x: u64| #[trigger] !(!x) == x by {
        assert(!(!x) == x) by (bit_vector);
    }
    assert(not_word(not_word(a)).0 =~= a.0);
}

/// The dot product of the first `k` half differences with the witness.
pub open spec fn pinv_dot(val0: U256, val1: U256, pinv: [GoldilocksField; 8], k: int) -> int
    decreases k,
{
    if k <= 0 {
        0
    } else {
        pinv_dot(val0, val1, pinv, k - 1) + half_diff(val0, val1, k - 1) * pinv[k - 1].0
    }
}

proof fn lemma_words_differ_in_a_half(a: U256, b: U256)
    requires
        a != b,
    ensures
        exists|j: int| 0 <= j < 8 && half_limb(a, j) != half_limb(b, j),
{
    if forall|j: int| 0 <= j < 8 ==> half_limb(a, j) == half_limb(b, j) {
        assert forall|i: int| 0 <= i < 4 implies a.0[i] == b.0[i] by {
            assert(half_limb(a, 2 * i) == half_limb(b, 2 * i));
            assert(half_limb(a, 2 * i + 1) == half_limb(b, 2 * i + 1));
            let x = a.0[i];
            let y = b.0[i];
            assert((x as u32 == y as u32 && (x >> 32u64) as u32 == (y >> 32u64) as u32) ==> x == y)
                by (bit_vector);
        }
        assert(a.0 =~= b.0);
    }
}

/// The zero-test witness certifies its answer: its dot product with the
/// differences of the two words' 32-bit halves is zero when the words are
/// equal and one, in the field, when they differ (given that each nonzero
/// difference has an inverse, as every nonzero element of a prime field does).
pub proof fn lemma_pinv_certifies(val0: U256, val1: U256, pinv: [GoldilocksField; 8])
    requires
        is_pinv_witness(val0, val1, pinv),
        forall|j: int|
            0 <= j < 8 && half_limb(val0, j) != half_limb(val1, j) ==> invertible(#[trigger] half_diff(val0, val1, j)),
    ensures
        val0 == val1 ==> pinv_dot(val0, val1, pinv, 8) == 0,
        val0 != val1 ==> pinv_dot(val0, val1, pinv, 8) % order() == 1,
{
    let p = order();
    if val0 == val1 {
        assert forall|k: int| 0 <= k <= 8 implies pinv_dot(val0, val1, pinv, k) == 0 by {
            lemma_dot_zero(val0, pinv, k);
        }
    } else {
        lemma_words_differ_in_a_half(val0, val1);
        crate::eq_iszero::lemma_count_bounds(val0, val1, 8);
        let n = num_unequal(val0, val1);
        crate::eq_iszero::lemma_small_invertible(n);
        let y = choose|b: int| 0 <= b < p && #[trigger] ((n * b) % p) == 1;
        lemma_dot_partial(val0, val1, pinv, y, 8);
        lemma_mul_mod_noop_general(n, y, p);
    }
}

proof fn lemma_dot_zero(v: U256, pinv: [GoldilocksField; 8], k: int)
    requires
        is_pinv_witness(v, v, pinv),
        0 <= k <= 8,
    ensures
        pinv_dot(v, v, pinv, k) == 0,
    decreases k,
{
    if k > 0 {
        lemma_dot_zero(v, pinv, k - 1);
        assert(pinv[k - 1].0 == 0);
    }
}

proof fn lemma_dot_partial(val0: U256, val1: U256, pinv: [GoldilocksField; 8], y: int, k: int)
    requires
        is_pinv_witness(val0, val1, pinv),
        forall|j: int|
            0 <= j < 8 && half_limb(val0, j) != half_limb(val1, j) ==> invertible(#[trigger] half_diff(val0, val1, j)),
        (num_unequal(val0, val1) * y) % order() == 1,
        0 <= y < order(),
        0 <= k <= 8,
    ensures
        pinv_dot(val0, val1, pinv, k) % order() == (count_unequal(val0, val1, k) * y) % order(),
    decreases k,
{
    let p = order();
    if k > 0 {
        lemma_dot_partial(val0, val1, pinv, y, k - 1);
        let j = k - 1;
        let s = pinv_dot(val0, val1, pinv, j);
        let c = count_unequal(val0, val1, j);
        let t = half_diff(val0, val1, j) * pinv[j].0;
        if half_limb(val0, j) == half_limb(val1, j) {
            assert(pinv[j].0 == 0);
            assert(t == 0);
        } else {
            let n = num_unequal(val0, val1);
            assert(invertible(half_diff(val0, val1, j)));
            assert((half_diff(val0, val1, j) * pinv[j].0 * n) % p == 1);
            // t == t * (n * y) == (t * n) * y == y, modulo p
            lemma_mul_mod_noop_general(t * n, y, p);
            assert(t * n * y == t * (n * y)) by (nonlinear_arith);
            lemma_mul_mod_noop_general(t, n * y, p);
            lemma_small_mod(y as nat, p as nat);
            lemma_small_mod(1, p as nat);
            assert(t % p == y);
            lemma_add_mod_noop(s, t, p);
            lemma_add_mod_noop(c * y, y, p);
            assert(c * y + y == (c + 1) * y) by (nonlinear_arith);
        }
    }
}

} // verus!
