//! Addressable 256-bit memory, the log entries of its accesses, and a simple
//! store that applies logged writes.
use vstd::prelude::*;

use ethereum_types::U256;

use crate::word::small_word;

verus! {

/// Segment holding code bytes (and kernel tables), one byte per word.
pub const CODE_SEGMENT: usize = 0;

/// Segment holding the stack of each context.
pub const STACK_SEGMENT: usize = 1;

/// General-purpose memory channels of one CPU row.
pub const NUM_GP_CHANNELS: usize = 4;

/// All memory channels of one CPU row: the code channel and the general ones.
pub const NUM_CHANNELS: usize = 5;

/// One 256-bit word slot: context, segment and offset within the segment.
#[derive(Clone, Copy, Debug, PartialEq, Eq, Structural)]
pub struct MemoryAddress {
    pub context: usize,
    pub segment: usize,
    pub virt: usize,
}

impl MemoryAddress {
    pub fn new(context: usize, segment: usize, virt: usize) -> (r: Self)
        ensures
            r == (MemoryAddress { context, segment, virt }),
    {
        MemoryAddress { context, segment, virt }
    }
}

/// The slot of stack element `i` (0 = bottom) in context `context`.
pub open spec fn stack_address(context: usize, i: int) -> MemoryAddress {
    MemoryAddress { context, segment: STACK_SEGMENT, virt: i as usize }
}

/// The code-segment slot at `offset` of the kernel's context.
pub open spec fn code_address(offset: int) -> MemoryAddress {
    MemoryAddress { context: 0, segment: CODE_SEGMENT, virt: offset as usize }
}

#[derive(Clone, Copy, Debug, PartialEq, Eq, Structural)]
pub enum MemoryOpKind {
    Read,
    Write,
}

/// The channel of a CPU row through which an access is made.
#[derive(Clone, Copy, Debug, PartialEq, Eq, Structural)]
pub enum MemoryChannel {
    Code,
    GeneralPurpose(usize),
}

impl MemoryChannel {
    /// Position of the channel among the `NUM_CHANNELS` of a row.
    pub open spec fn position(self) -> int {
        match self {
            MemoryChannel::Code => 0,
            MemoryChannel::GeneralPurpose(n) => n + 1,
        }
    }
}

/// One logged memory access. Accesses are ordered by `clock` (the CPU row
/// they belong to) and then by the channel's position.
#[derive(Clone, Copy, Debug, PartialEq, Eq)]
pub struct MemoryOp {
    pub filter: bool,
    pub clock: usize,
    pub channel: MemoryChannel,
    pub address: MemoryAddress,
    pub kind: MemoryOpKind,
    pub value: U256,
}

impl MemoryOp {
    /// Position of this access in the whole execution.
    pub open spec fn timestamp(self) -> int {
        self.clock * NUM_CHANNELS + self.channel.position()
    }
}

/// The log entry of a read of `value` at `address`.
pub open spec fn read_op(channel: MemoryChannel, clock: usize, address: MemoryAddress, value: U256) -> MemoryOp {
    MemoryOp { filter: true, clock, channel, address, kind: MemoryOpKind::Read, value }
}

/// The log entry of a write of `value` at `address`.
pub open spec fn write_op(channel: MemoryChannel, clock: usize, address: MemoryAddress, value: U256) -> MemoryOp {
    MemoryOp { filter: true, clock, channel, address, kind: MemoryOpKind::Write, value }
}

/// What slot `a` holds once the writes among `ops` are applied, in order, to
/// memory `m`.
pub open spec fn value_after(m: spec_fn(MemoryAddress) -> U256, ops: Seq<MemoryOp>, a: MemoryAddress) -> U256
    decreases ops.len(),
{
    if ops.len() == 0 {
        m(a)
    } else {
        let op = ops.last();
        if op.kind == MemoryOpKind::Write && op.address == a {
            op.value
        } else {
            value_after(m, ops.drop_last(), a)
        }
    }
}

/// The value of the most recent entry for `a` in `cells`; zero if none.
pub open spec fn latest(cells: Seq<(MemoryAddress, U256)>, a: MemoryAddress) -> U256
    decreases cells.len(),
{
    if cells.len() == 0 {
        small_word(0)
    } else if cells.last().0 == a {
        cells.last().1
    } else {
        latest(cells.drop_last(), a)
    }
}

/// A memory store: every slot reads as the last value written to it, and as
/// zero before any write.
pub struct MemoryState {
    cells: Vec<(MemoryAddress, U256)>,
}

impl MemoryState {
    /// The word held at `a`.
    pub closed spec fn value(&self, a: MemoryAddress) -> U256 {
        latest(self.cells@, a)
    }

    /// The whole store as a function from slots to words.
    pub open spec fn view(&self) -> spec_fn(MemoryAddress) -> U256 {
        |a: MemoryAddress| self.value(a)
    }

    /// A store in which every slot holds zero.
    pub fn new() -> (r: Self)
        ensures
            forall|a: MemoryAddress| #[trigger] r.value(a) == small_word(0),
    {
        MemoryState { cells: Vec::new() }
    }

    /// The word held at `address`.
    pub fn get(&self, address: MemoryAddress) -> (r: U256)
        ensures
            r == self.value(address),
    {
        let mut i = self.cells.len();
        assert(self.cells@.subrange(0, i as int) == self.cells@);
        while i > 0
            invariant
                i <= self.cells@.len(),
                latest(self.cells@, address) == latest(self.cells@.subrange(0, i as int), address),
            decreases i,
        {
            let ghost prefix = self.cells@.subrange(0, i as int);
            assert(prefix.drop_last() == self.cells@.subrange(0, i - 1));
            if self.cells[i - 1].0 == address {
                return self.cells[i - 1].1;
            }
            i = i - 1;
        }
        U256([0, 0, 0, 0])
    }

    /// Stores `value` at `address`.
    pub fn set(&mut self, address: MemoryAddress, value: U256)
        ensures
            forall|a: MemoryAddress| #[trigger]
                final(self).value(a) == if a == address {
                    value
                } else {
                    old(self).value(a)
                },
    {
        self.cells.push((address, value));
        assert(self.cells@.drop_last() == old(self).cells@);
    }

    /// Applies the writes among `ops`, in order; reads change nothing.
    pub fn apply_ops(&mut self, ops: &Vec<MemoryOp>)
        ensures
            forall|a: MemoryAddress| #[trigger]
                final(self).value(a) == value_after(old(self).view(), ops@, a),
    {
        let ghost m0 = old(self).view();
        let mut i: usize = 0;
        while i < ops.len()
            invariant
                i <= ops@.len(),
                m0 == old(self).view(),
                forall|a: MemoryAddress| #[trigger]
                    self.value(a) == value_after(m0, ops@.subrange(0, i as int), a),
            decreases ops.len() - i,
        {
            let op = ops[i];
            assert(ops@.subrange(0, i + 1).drop_last() == ops@.subrange(0, i as int));
            if op.kind == MemoryOpKind::Write {
                self.set(op.address, op.value);
            }
            i = i + 1;
        }
        assert(ops@.subrange(0, ops@.len() as int) == ops@);
    }
}

} // verus!
