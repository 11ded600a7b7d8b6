//! 256-bit machine words, as four little-endian 64-bit limbs, and the packed
//! return word that links a system call to the matching kernel exit.
use vstd::prelude::*;

use ethereum_types::U256;

verus! {

#[verifier::external_type_specification]
pub struct ExU256(ethereum_types::U256);

/// The word with value `v`, for `v` that fits one limb.
pub open spec fn small_word(v: u64) -> U256 {
    U256([v, 0u64, 0u64, 0u64])
}

/// Bit `i` (0 = least significant) of a word, for `i` in `0..256`.
pub open spec fn word_bit(x: U256, i: int) -> bool {
    x.0[i / 64] & (1u64 << ((i % 64) as u64)) != 0
}

/// The eight 32-bit halves of a word, least significant first.
pub open spec fn half_limb(x: U256, j: int) -> u32 {
    if j % 2 == 0 {
        (x.0[j / 2] as u32)
    } else {
        ((x.0[j / 2] >> 32u64) as u32)
    }
}

/// Relies on U256's `BitAnd`: limb-wise AND.
#[verifier::external_body]
pub(crate) fn word_and(a: U256, b: U256) -> (r: U256)
    ensures
        r == U256([a.0[0] & b.0[0], a.0[1] & b.0[1], a.0[2] & b.0[2], a.0[3] & b.0[3]]),
{
    a & b
}

/// Relies on U256's `BitOr`: limb-wise OR.
#[verifier::external_body]
pub(crate) fn word_or(a: U256, b: U256) -> (r: U256)
    ensures
        r == U256([a.0[0] | b.0[0], a.0[1] | b.0[1], a.0[2] | b.0[2], a.0[3] | b.0[3]]),
{
    a | b
}

/// Relies on U256's `BitXor`: limb-wise XOR.
#[verifier::external_body]
pub(crate) fn word_xor(a: U256, b: U256) -> (r: U256)
    ensures
        r == U256([a.0[0] ^ b.0[0], a.0[1] ^ b.0[1], a.0[2] ^ b.0[2], a.0[3] ^ b.0[3]]),
{
    a ^ b
}

/// Relies on U256's `Not`: limb-wise complement.
#[verifier::external_body]
pub(crate) fn word_not(a: U256) -> (r: U256)
    ensures
        r == U256([!a.0[0], !a.0[1], !a.0[2], !a.0[3]]),
{
    !a
}

/// Relies on `U256::bit`: tests one bit of the limb `index / 64`; panics past
/// bit 255.
#[verifier::external_body]
pub(crate) fn word_bit_at(x: &U256, index: usize) -> (r: bool)
    requires
        index < 256,
    ensures
        r == word_bit(*x, index as int),
{
    x.bit(index)
}

/// Relies on `U256::is_zero`: true when all four limbs are zero.
#[verifier::external_body]
pub(crate) fn word_is_zero(x: &U256) -> (r: bool)
    ensures
        r == (x.0[0] == 0 && x.0[1] == 0 && x.0[2] == 0 && x.0[3] == 0),
{
    x.is_zero()
}

/// Relies on U256's derived `PartialEq`: equal when the limb arrays are.
#[verifier::external_body]
pub(crate) fn word_eq(a: &U256, b: &U256) -> (r: bool)
    ensures
        r == (*a == *b),
{
    *a == *b
}

/// The eight 32-bit halves of a word, least significant first.
pub fn half_limbs(x: &U256) -> (r: [u32; 8])
    ensures
        forall|j: int| 0 <= j < 8 ==> #[trigger] r[j] == half_limb(*x, j),
{
    let l = x.0;
    [
        l[0] as u32,
        (l[0] >> 32) as u32,
        l[1] as u32,
        (l[1] >> 32) as u32,
        l[2] as u32,
        (l[2] >> 32) as u32,
        l[3] as u32,
        (l[3] >> 32) as u32,
    ]
}

/// The packed word that a system call leaves for the kernel exit: the
/// program counter in bits 0..32 and the kernel flag in bit 32.
pub open spec fn kernel_exit_word(program_counter: u32, is_kernel: bool) -> U256 {
    small_word((program_counter as u64 + (if is_kernel { 0x1_0000_0000u64 } else { 0u64 })) as u64)
}

/// A word that decodes as a kernel-exit word: everything above bit 32 is zero.
pub open spec fn is_kernel_exit_word(w: U256) -> bool {
    w.0[0] >> 32u64 <= 1 && w.0[1] == 0 && w.0[2] == 0 && w.0[3] == 0
}

/// A packed return word whose bits above 32 are neither 0 nor 1.
#[derive(Clone, Copy, Debug, PartialEq, Eq)]
pub struct InvariantViolation;

/// Packs a program counter and a kernel flag into one word.
pub fn encode_kernel_exit(program_counter: u32, is_kernel: bool) -> (r: U256)
    ensures
        r == kernel_exit_word(program_counter, is_kernel),
{
    let flag: u64 = if is_kernel { 0x1_0000_0000u64 } else { 0u64 };
    U256([program_counter as u64 + flag, 0, 0, 0])
}

/// Unpacks a kernel-exit word: bits 0..32 are the program counter, and the
/// rest must be exactly 0 (user mode) or 1 (kernel mode).
pub fn decode_kernel_exit(w: &U256) -> (r: Result<(u32, bool), InvariantViolation>)
    ensures
        r is Ok <==> is_kernel_exit_word(*w),
        r matches Ok((pc, k)) ==> pc == w.0[0] as u32 && k == (w.0[0] >> 32u64 == 1),
{
    let low = w.0[0];
    let flag = low >> 32;
    if flag <= 1 && w.0[1] == 0 && w.0[2] == 0 && w.0[3] == 0 {
        Ok((low as u32, flag == 1))
    } else {
        Err(InvariantViolation)
    }
}

/// Decoding undoes encoding: a packed word gives back the program counter and
/// the kernel flag it was made from.
pub proof fn lemma_kernel_exit_round_trip(program_counter: u32, is_kernel: bool)
    ensures
        is_kernel_exit_word(kernel_exit_word(program_counter, is_kernel)),
        kernel_exit_word(program_counter, is_kernel).0[0] as u32 == program_counter,
        (kernel_exit_word(program_counter, is_kernel).0[0] >> 32u64 == 1) == is_kernel,
{
    let pc = program_counter as u64;
    if is_kernel {
        let w: u64 = (pc + 0x1_0000_0000u64) as u64;
        assert(w >> 32u64 == 1 && w as u32 == pc as u32) by (bit_vector)
            requires
                pc < 0x1_0000_0000u64,
                w == (pc + 0x1_0000_0000u64) as u64,
        ;
    } else {
        assert(pc >> 32u64 == 0 && pc as u32 == pc as u32) by (bit_vector)
            requires
                pc < 0x1_0000_0000u64,
        ;
    }
}

} // verus!
