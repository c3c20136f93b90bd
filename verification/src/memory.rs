//! Kernel image boundaries, as the linker script lays them out.

use vstd::prelude::*;

verus! {

/// A half-open virtual address range within the kernel image.
#[derive(Clone, Copy, Debug, PartialEq, Eq, Structural)]
pub struct Region {
    start: usize,
    end: usize,
}

impl Region {
    /// A region never ends before it starts.
    #[verifier::type_invariant]
    closed spec fn ordered(self) -> bool {
        self.start <= self.end
    }

    /// The inclusive start address.
    pub closed spec fn start_address(self) -> usize {
        self.start
    }

    /// The exclusive end address.
    pub closed spec fn end_address(self) -> usize {
        self.end
    }

    /// Creates the half-open range `start..end`.
    ///
    /// The range must not end before it starts.
    pub fn new(start: usize, end: usize) -> (region: Self)
        requires
            start <= end,
        ensures
            region.start_address() == start,
            region.end_address() == end,
    {
        Region { start, end }
    }

    /// Returns the inclusive start address.
    pub fn start(self) -> (start: usize)
        ensures
            start == self.start_address(),
            start <= self.end_address(),
    {
        proof {
            use_type_invariant(self);
        }
        self.start
    }

    /// Returns the exclusive end address.
    pub fn end(self) -> (end: usize)
        ensures
            end == self.end_address(),
            self.start_address() <= end,
    {
        proof {
            use_type_invariant(self);
        }
        self.end
    }

    /// Returns the size of the range in bytes.
    pub fn size(self) -> (size: usize)
        ensures
            size == self.end_address() - self.start_address(),
            self.start_address() + size == self.end_address(),
    {
        proof {
            use_type_invariant(self);
        }
        self.end - self.start
    }
}

/// Linker-defined memory layout of the loaded kernel image.
#[derive(Clone, Copy, Debug, PartialEq, Eq, Structural)]
pub struct KernelLayout {
    pub kernel: Region,
    pub text: Region,
    pub read_only_data: Region,
    pub data: Region,
    pub bss: Region,
    pub boot_stack: Region,
}

/// Whether `region` is the range `bounds.0..bounds.1`.
pub open spec fn spans(region: Region, bounds: (usize, usize)) -> bool {
    region.start_address() == bounds.0 && region.end_address() == bounds.1
}

/// Returns the kernel layout described by the linker-provided symbol
/// addresses, each section given as its `(start, end)` pair.
///
/// Each section must not end before it starts.
pub fn kernel_layout(
    kernel: (usize, usize),
    text: (usize, usize),
    read_only_data: (usize, usize),
    data: (usize, usize),
    bss: (usize, usize),
    boot_stack: (usize, usize),
) -> (layout: KernelLayout)
    requires
        kernel.0 <= kernel.1,
        text.0 <= text.1,
        read_only_data.0 <= read_only_data.1,
        data.0 <= data.1,
        bss.0 <= bss.1,
        boot_stack.0 <= boot_stack.1,
    ensures
        spans(layout.kernel, kernel),
        spans(layout.text, text),
        spans(layout.read_only_data, read_only_data),
        spans(layout.data, data),
        spans(layout.bss, bss),
        spans(layout.boot_stack, boot_stack),
{
    KernelLayout {
        kernel: Region::new(kernel.0, kernel.1),
        text: Region::new(text.0, text.1),
        read_only_data: Region::new(read_only_data.0, read_only_data.1),
        data: Region::new(data.0, data.1),
        bss: Region::new(bss.0, bss.1),
        boot_stack: Region::new(boot_stack.0, boot_stack.1),
    }
}

} // verus!
