//! Trace rows and the append-only sink that collects them.
use vstd::prelude::*;

use ethereum_types::U256;

use crate::field::GoldilocksField;
use crate::memory::{MemoryAddress, MemoryOp, NUM_GP_CHANNELS};
use crate::word::half_limb;

verus! {

/// Logic sub-table column: the operation is AND.
pub const IS_AND: usize = 0;

/// Logic sub-table column: the operation is OR.
pub const IS_OR: usize = 1;

/// Logic sub-table column: the operation is XOR.
pub const IS_XOR: usize = 2;

/// First of the 256 bit columns of the first operand.
pub const INPUT0_START: usize = 3;

/// First of the 256 bit columns of the second operand.
pub const INPUT1_START: usize = 259;

/// First of the 8 columns of the result, in 32-bit halves.
pub const RESULT_START: usize = 515;

/// Width of a logic sub-table row.
pub const NUM_LOGIC_COLUMNS: usize = 523;

/// The columns of a CPU row that describe one memory channel.
#[derive(Clone, Copy, Debug)]
pub struct MemoryChannelView {
    pub used: GoldilocksField,
    pub is_read: GoldilocksField,
    pub addr_context: GoldilocksField,
    pub addr_segment: GoldilocksField,
    pub addr_virtual: GoldilocksField,
    pub value: [GoldilocksField; 8],
}

/// The channel columns of an access of `value` (as its eight 32-bit halves)
/// at `address`.
pub open spec fn channel_columns(is_read: bool, address: MemoryAddress, value: U256) -> MemoryChannelView {
    MemoryChannelView {
        used: GoldilocksField(1),
        is_read: GoldilocksField(if is_read { 1u64 } else { 0u64 }),
        addr_context: GoldilocksField(address.context as u64),
        addr_segment: GoldilocksField(address.segment as u64),
        addr_virtual: GoldilocksField(address.virt as u64),
        value: [
            GoldilocksField(half_limb(value, 0) as u64),
            GoldilocksField(half_limb(value, 1) as u64),
            GoldilocksField(half_limb(value, 2) as u64),
            GoldilocksField(half_limb(value, 3) as u64),
            GoldilocksField(half_limb(value, 4) as u64),
            GoldilocksField(half_limb(value, 5) as u64),
            GoldilocksField(half_limb(value, 6) as u64),
            GoldilocksField(half_limb(value, 7) as u64),
        ],
    }
}

impl MemoryChannelView {
    /// A channel that no access has used.
    pub fn unused() -> (r: Self)
        ensures
            r.used.0 == 0,
    {
        let z = GoldilocksField(0);
        MemoryChannelView {
            used: z,
            is_read: z,
            addr_context: z,
            addr_segment: z,
            addr_virtual: z,
            value: [z, z, z, z, z, z, z, z],
        }
    }
}

/// The part of a CPU row that opcode handlers fill: the general-purpose
/// memory channels and the inverse witness of the equality tests.
#[derive(Clone, Copy, Debug)]
pub struct CpuColumnsView {
    pub mem_channels: [MemoryChannelView; 4],
    pub diff_pinv: [GoldilocksField; 8],
}

impl CpuColumnsView {
    /// No channel has been used yet.
    pub open spec fn channels_free(self) -> bool {
        forall|i: int| 0 <= i < NUM_GP_CHANNELS ==> (#[trigger] self.mem_channels[i]).used.0 == 0
    }

    /// A row whose columns are all zero.
    pub fn new() -> (r: Self)
        ensures
            r.channels_free(),
    {
        let c = MemoryChannelView::unused();
        let z = GoldilocksField(0);
        CpuColumnsView { mem_channels: [c, c, c, c], diff_pinv: [z, z, z, z, z, z, z, z] }
    }

    /// Fills the columns of channel `n`.
    pub fn set_channel(&mut self, n: usize, columns: MemoryChannelView)
        requires
            n < NUM_GP_CHANNELS,
        ensures
            final(self).mem_channels[n as int] == columns,
            forall|i: int| 0 <= i < NUM_GP_CHANNELS && i != n ==> #[trigger] final(self).mem_channels[i] == old(self).mem_channels[i],
            final(self).diff_pinv == old(self).diff_pinv,
    {
        self.mem_channels[n] = columns;
    }

    /// Fills column `j` of the inverse witness.
    pub fn set_diff_pinv(&mut self, j: usize, value: GoldilocksField)
        requires
            j < 8,
        ensures
            final(self).diff_pinv[j as int] == value,
            forall|i: int| 0 <= i < 8 && i != j ==> #[trigger] final(self).diff_pinv[i] == old(self).diff_pinv[i],
            final(self).mem_channels == old(self).mem_channels,
    {
        self.diff_pinv[j] = value;
    }
}

/// Where generated rows go. Rows are only ever appended.
pub struct Traces {
    pub cpu: Vec<CpuColumnsView>,
    pub logic_ops: Vec<Vec<GoldilocksField>>,
    pub memory_ops: Vec<MemoryOp>,
}

impl Traces {
    pub fn new() -> (r: Self)
        ensures
            r.cpu@.len() == 0,
            r.logic_ops@.len() == 0,
            r.memory_ops@.len() == 0,
    {
        Traces { cpu: Vec::new(), logic_ops: Vec::new(), memory_ops: Vec::new() }
    }

    /// The index of the CPU row being generated.
    pub open spec fn spec_clock(&self) -> usize {
        self.cpu@.len() as usize
    }

    pub fn clock(&self) -> (r: usize)
        ensures
            r == self.spec_clock(),
    {
        self.cpu.len()
    }

    pub fn push_cpu(&mut self, row: CpuColumnsView)
        ensures
            final(self).cpu@ == old(self).cpu@.push(row),
            final(self).logic_ops@ == old(self).logic_ops@,
            final(self).memory_ops@ == old(self).memory_ops@,
    {
        self.cpu.push(row);
    }

    pub fn push_logic(&mut self, row: Vec<GoldilocksField>)
        ensures
            final(self).logic_ops@ == old(self).logic_ops@.push(row),
            final(self).cpu@ == old(self).cpu@,
            final(self).memory_ops@ == old(self).memory_ops@,
    {
        self.logic_ops.push(row);
    }

    pub fn push_memory(&mut self, op: MemoryOp)
        ensures
            final(self).memory_ops@ == old(self).memory_ops@.push(op),
            final(self).cpu@ == old(self).cpu@,
            final(self).logic_ops@ == old(self).logic_ops@,
    {
        self.memory_ops.push(op);
    }
}

} // verus!
