//! The kernel program's label table: global labels and the code offsets
//! they stand for.
use vstd::prelude::*;

verus! {

/// The label of the table of system-call handler addresses.
pub const SYSCALL_JUMPTABLE: &'static str = "syscall_jumptable";

/// The offset of the first entry named `label`, if any.
pub open spec fn label_offset(labels: Seq<(String, usize)>, label: Seq<char>) -> Option<usize>
    decreases labels.len(),
{
    if labels.len() == 0 {
        None
    } else if labels[0].0@ == label {
        Some(labels[0].1)
    } else {
        label_offset(labels.subrange(1, labels.len() as int), label)
    }
}

/// Global labels of the kernel program. Shared and read-only once built.
pub struct KernelLabels {
    pub global_labels: Vec<(String, usize)>,
}

impl KernelLabels {
    /// The code offset of `label`.
    pub open spec fn offset_of(&self, label: Seq<char>) -> Option<usize> {
        label_offset(self.global_labels@, label)
    }

    /// Looks `label` up.
    pub fn lookup(&self, label: &String) -> (r: Option<usize>)
        ensures
            r == self.offset_of(label@),
    {
        let mut i: usize = 0;
        assert(self.global_labels@.subrange(0, self.global_labels@.len() as int) == self.global_labels@);
        while i < self.global_labels.len()
            invariant
                i <= self.global_labels@.len(),
                self.offset_of(label@) == label_offset(
                    self.global_labels@.subrange(i as int, self.global_labels@.len() as int),
                    label@,
                ),
            decreases self.global_labels@.len() - i,
        {
            let ghost rest = self.global_labels@.subrange(i as int, self.global_labels@.len() as int);
            assert(rest.subrange(1, rest.len() as int) == self.global_labels@.subrange(
                i + 1,
                self.global_labels@.len() as int,
            ));
            if self.global_labels[i].0 == *label {
                return Some(self.global_labels[i].1);
            }
            i = i + 1;
        }
        None
    }
}

/// The code offset of the system-call jump table, if the kernel has one.
pub open spec fn syscall_jumptable_offset(kernel: &KernelLabels) -> Option<usize> {
    kernel.offset_of(SYSCALL_JUMPTABLE@)
}

} // verus!
