//! Hardware discovery from the firmware-provided flattened device tree.
//!
//! A [`Platform`] is a view of the tree's bytes; each query parses them
//! through the `fdt` crate and reports what the tree describes: the RAM
//! ranges, the hart IDs, the UART, the PLIC, the CLINT, the per-hart
//! interrupt controllers and the tree's size. The queries that the
//! `fdt` crate could not answer without panicking require a sound tree.

use vstd::prelude::*;
use vstd::string::StringSliceAdditionalSpecFns;
use crate::device_tree::{
    be_u32_at, be_u64_at, compatible_interrupt, compatible_lists, compatible_property,
    compatible_reg, cpu_regs, fdt_compatible_interrupt, fdt_compatible_lists,
    fdt_compatible_property, fdt_compatible_reg, fdt_cpu_regs, fdt_node_regions, header_check,
    node_regions, parse_fdt, property_as_usize, property_usize, texts_bytes, DeviceTreeError,
};
use crate::structure::{check_device_tree, device_tree_sound, read_be_u32};

verus! {

/// A physical memory or MMIO range described by a `reg` property.
#[derive(Clone, Copy, Debug, PartialEq, Eq, Structural)]
pub struct AddressRange {
    pub base: usize,
    pub size: Option<usize>,
}

/// A discovered 16550-compatible UART.
#[derive(Clone, Copy, Debug, PartialEq, Eq, Structural)]
pub struct Uart {
    pub registers: AddressRange,
    pub interrupt: Option<usize>,
}

/// A discovered platform-level interrupt controller.
#[derive(Clone, Copy, Debug, PartialEq, Eq, Structural)]
pub struct Plic {
    pub registers: AddressRange,
    pub interrupt_sources: Option<usize>,
}

/// Errors encountered while locating required QEMU `virt` hardware.
#[derive(Clone, Copy, Debug, PartialEq, Eq, Structural)]
pub enum DiscoveryError {
    MissingRam,
    MissingCpu,
    MissingUart,
    MissingPlic,
    MissingClint,
}

/// The path of the memory node.
pub const MEMORY_PATH: &'static str = "/memory";

/// The `compatible` strings that identify a UART.
pub const UART_COMPATIBLE: [&'static str; 2] = ["ns16550a", "ns16550"];

/// The `compatible` strings that identify a PLIC.
pub const PLIC_COMPATIBLE: [&'static str; 2] = ["sifive,plic-1.0.0", "riscv,plic0"];

/// The `compatible` strings that identify a CLINT.
pub const CLINT_COMPATIBLE: [&'static str; 2] = ["sifive,clint0", "riscv,clint0"];

/// The PLIC property that gives the number of interrupt sources.
pub const PLIC_SOURCE_COUNT: &'static str = "riscv,ndev";

/// The `compatible` string of a per-hart interrupt controller.
pub const CPU_INTERRUPT_CONTROLLER: &'static str = "riscv,cpu-intc";

// ---------------------------------------------------------------------------
// What the tree describes.

/// The range given by a node's `reg` property, from its first region as the
/// parser read it: absent when the property cannot be read or lists no
/// region.
pub open spec fn first_range(reg: Option<Option<AddressRange>>) -> Option<AddressRange> {
    match reg {
        Some(Some(first)) => Some(first),
        _ => None,
    }
}

/// The interrupt that a node's `interrupts` property lists first, from that
/// property as the parser read it: absent when it cannot be read or lists
/// none.
pub open spec fn first_listed_interrupt(interrupts: Option<Option<usize>>) -> Option<usize> {
    match interrupts {
        Some(first) => first,
        None => None,
    }
}

/// The number of PLIC interrupt sources, given the value of its source-count
/// property: none when the property is absent or not a number.
pub open spec fn source_count(value: Option<Seq<u8>>) -> Option<usize> {
    match value {
        Some(bytes) => property_usize(bytes),
        None => None,
    }
}

/// Whether the tree has a memory node whose `reg` property can be read.
pub open spec fn memory_readable(tree: Seq<u8>) -> bool {
    fdt_node_regions(tree, MEMORY_PATH.spec_bytes()) is Some
}

/// The RAM ranges of the tree's memory node, in order.
pub open spec fn tree_memory_regions(tree: Seq<u8>) -> Seq<AddressRange> {
    match fdt_node_regions(tree, MEMORY_PATH.spec_bytes()) {
        Some(regions) => regions,
        None => Seq::empty(),
    }
}

/// The hart IDs listed in one CPU's `reg` value: big-endian words of
/// `cells` 32-bit cells, read while a whole word remains.
pub open spec fn cpu_reg_ids(cells: usize, reg: Seq<u8>) -> Seq<usize>
    decreases reg.len(),
{
    if cells == 1 && reg.len() >= 4 {
        seq![be_u32_at(reg, 0) as usize] + cpu_reg_ids(cells, reg.subrange(4, reg.len() as int))
    } else if cells == 2 && reg.len() >= 8 {
        seq![be_u64_at(reg, 0) as usize] + cpu_reg_ids(cells, reg.subrange(8, reg.len() as int))
    } else {
        Seq::empty()
    }
}

/// Whether the IDs of one CPU can be read: it has a `reg` property, and its
/// IDs are one or two cells wide unless the property is empty.
pub open spec fn cpu_reg_readable(cells: usize, reg: Option<Seq<u8>>) -> bool {
    match reg {
        Some(value) => value.len() == 0 || cells == 1 || cells == 2,
        None => false,
    }
}

/// Whether the tree has a `/cpus` node whose CPUs' IDs can all be read.
pub open spec fn cpus_readable(tree: Seq<u8>) -> bool {
    match fdt_cpu_regs(tree) {
        Some((cells, regs)) => forall|i: int| 0 <= i < regs.len() ==> #[trigger] cpu_reg_readable(cells, regs[i]),
        None => false,
    }
}

/// The hart IDs of all CPUs, given each CPU's IDs: the lists one after the
/// other, in order.
pub open spec fn joined_hart_ids(per_cpu: Seq<Seq<usize>>) -> Seq<usize>
    decreases per_cpu.len(),
{
    if per_cpu.len() == 0 {
        Seq::empty()
    } else {
        joined_hart_ids(per_cpu.drop_last()) + per_cpu.last()
    }
}

/// Each CPU's hart IDs, CPU by CPU.
pub open spec fn tree_cpu_ids(tree: Seq<u8>) -> Seq<Seq<usize>> {
    match fdt_cpu_regs(tree) {
        Some((cells, regs)) => Seq::new(
            regs.len(),
            |i: int| match regs[i] {
                Some(value) => cpu_reg_ids(cells, value),
                None => Seq::empty(),
            },
        ),
        None => Seq::empty(),
    }
}

/// The hart IDs of every CPU node, CPU by CPU.
pub open spec fn tree_hart_ids(tree: Seq<u8>) -> Seq<usize> {
    joined_hart_ids(tree_cpu_ids(tree))
}

/// The first UART: the first node compatible with a 16550, if it has a
/// register range, with the first interrupt it lists.
pub open spec fn tree_uart(tree: Seq<u8>) -> Option<Uart> {
    let with = texts_bytes(UART_COMPATIBLE@);
    match fdt_compatible_reg(tree, with) {
        Some(reg) => match first_range(reg) {
            Some(registers) => Some(
                Uart {
                    registers,
                    interrupt: match fdt_compatible_interrupt(tree, with) {
                        Some(interrupts) => first_listed_interrupt(interrupts),
                        None => None,
                    },
                },
            ),
            None => None,
        },
        None => None,
    }
}

/// The PLIC: the first node compatible with a PLIC, if it has a register
/// range, with its number of interrupt sources.
pub open spec fn tree_plic(tree: Seq<u8>) -> Option<Plic> {
    let with = texts_bytes(PLIC_COMPATIBLE@);
    match fdt_compatible_reg(tree, with) {
        Some(reg) => match first_range(reg) {
            Some(registers) => Some(
                Plic {
                    registers,
                    interrupt_sources: match fdt_compatible_property(
                        tree,
                        with,
                        PLIC_SOURCE_COUNT.spec_bytes(),
                    ) {
                        Some(value) => source_count(value),
                        None => None,
                    },
                },
            ),
            None => None,
        },
        None => None,
    }
}

/// The CLINT: the register range of the first node compatible with a CLINT.
pub open spec fn tree_clint(tree: Seq<u8>) -> Option<AddressRange> {
    match fdt_compatible_reg(tree, texts_bytes(CLINT_COMPATIBLE@)) {
        Some(reg) => first_range(reg),
        None => None,
    }
}

/// Whether a node's `compatible` list marks a per-hart interrupt controller.
pub open spec fn marks_cpu_interrupt_controller(compatible: Option<Seq<Seq<u8>>>) -> bool {
    match compatible {
        Some(names) => names.contains(CPU_INTERRUPT_CONTROLLER.spec_bytes()),
        None => false,
    }
}

/// The number of nodes, among those whose `compatible` lists are given,
/// that are per-hart interrupt controllers.
pub open spec fn cpu_interrupt_controllers_in(compatibles: Seq<Option<Seq<Seq<u8>>>>) -> nat
    decreases compatibles.len(),
{
    if compatibles.len() == 0 {
        0
    } else {
        cpu_interrupt_controllers_in(compatibles.drop_last()) + if marks_cpu_interrupt_controller(
            compatibles.last(),
        ) {
            1nat
        } else {
            0nat
        }
    }
}

/// The number of per-hart interrupt-controller nodes in the tree.
pub open spec fn tree_cpu_interrupt_controllers(tree: Seq<u8>) -> nat {
    cpu_interrupt_controllers_in(fdt_compatible_lists(tree))
}

/// The outcome of validating a platform: the first required piece of
/// hardware that is missing, checked in the order RAM, CPU, UART, PLIC,
/// CLINT.
pub open spec fn discovery_check(
    memory_regions: nat,
    harts: nat,
    uart: Option<Uart>,
    plic: Option<Plic>,
    clint: Option<AddressRange>,
) -> Result<(), DiscoveryError> {
    if memory_regions == 0 {
        Err(DiscoveryError::MissingRam)
    } else if harts == 0 {
        Err(DiscoveryError::MissingCpu)
    } else if uart is None {
        Err(DiscoveryError::MissingUart)
    } else if plic is None {
        Err(DiscoveryError::MissingPlic)
    } else if clint is None {
        Err(DiscoveryError::MissingClint)
    } else {
        Ok(())
    }
}

/// The outcome of validating the platform that `tree` describes.
pub open spec fn tree_discovery(tree: Seq<u8>) -> Result<(), DiscoveryError> {
    discovery_check(
        tree_memory_regions(tree).len(),
        tree_hart_ids(tree).len(),
        tree_uart(tree),
        tree_plic(tree),
        tree_clint(tree),
    )
}

/// Whether validation can read what it checks: the memory node, and the
/// CPUs when there is RAM.
pub open spec fn discovery_readable(tree: Seq<u8>) -> bool {
    &&& memory_readable(tree)
    &&& tree_memory_regions(tree).len() > 0 ==> cpus_readable(tree)
}

// ---------------------------------------------------------------------------
// The platform.

/// Platform hardware described by a flattened device tree.
#[derive(Clone, Copy, Debug)]
pub struct Platform<'a> {
    bytes: &'a [u8],
}

impl<'a> Platform<'a> {
    /// The tree's header passes the parser's checks.
    #[verifier::type_invariant]
    closed spec fn header_valid(self) -> bool {
        header_check(self.bytes@) is Ok
    }

    /// The bytes of the device tree.
    pub closed spec fn tree(self) -> Seq<u8> {
        self.bytes@
    }

    /// Parses a flattened device tree from a byte slice.
    ///
    /// Fails exactly when the header checks of the device-tree parser fail.
    pub fn from_bytes(bytes: &'a [u8]) -> (platform: Result<Self, DeviceTreeError>)
        ensures
            platform is Ok <==> header_check(bytes@) is Ok,
            platform is Ok ==> platform->Ok_0.tree() == bytes@,
            platform is Err ==> header_check(bytes@) == Err::<(), DeviceTreeError>(
                platform->Err_0,
            ),
    {
        match parse_fdt(bytes) {
            Ok(()) => Ok(Platform { bytes }),
            Err(error) => Err(error),
        }
    }

    /// Returns whether the tree is sound, so that every query can read it.
    pub fn is_sound(&self) -> (sound: bool)
        ensures
            sound == device_tree_sound(self.tree()),
    {
        check_device_tree(self.bytes)
    }

    /// Returns whether the tree has a memory node whose ranges can be read.
    pub fn memory_is_readable(&self) -> (readable: bool)
        requires
            device_tree_sound(self.tree()),
        ensures
            readable == memory_readable(self.tree()),
    {
        proof {
            reveal_strlit("/memory");
        }
        node_regions(self.bytes, MEMORY_PATH).is_some()
    }

    /// Returns whether the tree has a `/cpus` node whose hart IDs can be read.
    pub fn cpus_are_readable(&self) -> (readable: bool)
        requires
            device_tree_sound(self.tree()),
        ensures
            readable == cpus_readable(self.tree()),
    {
        match cpu_regs(self.bytes) {
            Some((cells, regs)) => {
                let mut i: usize = 0;
                while i < regs.len()
                    invariant
                        i <= regs@.len(),
                        fdt_cpu_regs(self.tree()) == Some(
                            (cells, regs@.map_values(|reg: Option<Vec<u8>>| crate::device_tree::bytes_view(reg))),
                        ),
                        forall|j: int| 0 <= j < i ==> #[trigger] cpu_reg_readable(
                            cells,
                            crate::device_tree::bytes_view(regs@[j]),
                        ),
                    decreases regs@.len() - i,
                {
                    let readable = match &regs[i] {
                        Some(value) => value.len() == 0 || cells == 1 || cells == 2,
                        None => false,
                    };
                    let ghost mapped = regs@.map_values(
                        |reg: Option<Vec<u8>>| crate::device_tree::bytes_view(reg),
                    );
                    assert(mapped[i as int] == crate::device_tree::bytes_view(regs@[i as int]));
                    if !readable {
                        assert(!cpu_reg_readable(cells, mapped[i as int]));
                        assert(!cpus_readable(self.tree())) by {
                            let found = fdt_cpu_regs(self.tree());
                            assert(found == Some((cells, mapped)));
                            assert(0 <= i < mapped.len());
                            if cpus_readable(self.tree()) {
                                let (c, r) = found->0;
                                assert(c == cells && r == mapped);
                                assert(cpu_reg_readable(c, r[i as int]));
                                assert(false);
                            }
                        }
                        return false;
                    }
                    i = i + 1;
                }
                let ghost mapped = regs@.map_values(
                    |reg: Option<Vec<u8>>| crate::device_tree::bytes_view(reg),
                );
                assert forall|j: int| 0 <= j < mapped.len() implies #[trigger] cpu_reg_readable(
                    cells,
                    mapped[j],
                ) by {
                    assert(mapped[j] == crate::device_tree::bytes_view(regs@[j]));
                }
                true
            },
            None => false,
        }
    }

    /// Ensures all hardware required by the initial QEMU target is present.
    pub fn validate(&self) -> (result: Result<(), DiscoveryError>)
        requires
            device_tree_sound(self.tree()),
            discovery_readable(self.tree()),
        ensures
            result == tree_discovery(self.tree()),
    {
        if self.memory_region_count() == 0 {
            return Err(DiscoveryError::MissingRam);
        }
        if self.cpu_count() == 0 {
            return Err(DiscoveryError::MissingCpu);
        }
        if self.uart().is_none() {
            return Err(DiscoveryError::MissingUart);
        }
        if self.plic().is_none() {
            return Err(DiscoveryError::MissingPlic);
        }
        if self.clint().is_none() {
            return Err(DiscoveryError::MissingClint);
        }
        Ok(())
    }

    /// Validates the platform where the tree can be read for it: `None` when
    /// the tree is not sound, has no readable memory node, or has RAM but no
    /// readable CPUs.
    pub fn try_validate(&self) -> (result: Option<Result<(), DiscoveryError>>)
        ensures
            result == if device_tree_sound(self.tree()) && discovery_readable(self.tree()) {
                Some(tree_discovery(self.tree()))
            } else {
                None
            },
    {
        if !self.is_sound() || !self.memory_is_readable() {
            return None;
        }
        if self.memory_region_count() > 0 && !self.cpus_are_readable() {
            return None;
        }
        Some(self.validate())
    }

    /// Returns every physical RAM range, in tree order.
    pub fn memory_regions(&self) -> (regions: Vec<AddressRange>)
        requires
            device_tree_sound(self.tree()),
            memory_readable(self.tree()),
        ensures
            regions@ == tree_memory_regions(self.tree()),
    {
        proof {
            reveal_strlit("/memory");
        }
        match node_regions(self.bytes, MEMORY_PATH) {
            Some(regions) => regions,
            None => Vec::new(),
        }
    }

    /// Returns every physical RAM range where the memory node can be read:
    /// `None` when the tree is not sound or has no readable memory node.
    pub fn try_memory_regions(&self) -> (regions: Option<Vec<AddressRange>>)
        ensures
            regions is Some <==> device_tree_sound(self.tree()) && memory_readable(self.tree()),
            regions is Some ==> regions->0@ == tree_memory_regions(self.tree()),
    {
        if self.is_sound() && self.memory_is_readable() {
            Some(self.memory_regions())
        } else {
            None
        }
    }

    /// Returns the number of physical RAM ranges.
    pub fn memory_region_count(&self) -> (count: usize)
        requires
            device_tree_sound(self.tree()),
            memory_readable(self.tree()),
        ensures
            count == tree_memory_regions(self.tree()).len(),
    {
        self.memory_regions().len()
    }

    /// Returns every CPU hart ID listed by the tree, CPU by CPU and in the
    /// order each CPU lists them.
    pub fn cpu_hart_ids(&self) -> (harts: Vec<usize>)
        requires
            device_tree_sound(self.tree()),
            cpus_readable(self.tree()),
        ensures
            harts@ == tree_hart_ids(self.tree()),
    {
        let (cells, regs) = match cpu_regs(self.bytes) {
            Some(found) => found,
            None => (0, Vec::new()),
        };
        let ghost tree = self.tree();
        let ghost expected = tree_cpu_ids(tree);
        let mut per_cpu: Vec<Vec<usize>> = Vec::new();
        let mut i: usize = 0;
        while i < regs.len()
            invariant
                i <= regs@.len(),
                fdt_cpu_regs(tree) == Some(
                    (cells, regs@.map_values(|reg: Option<Vec<u8>>| crate::device_tree::bytes_view(reg))),
                ),
                cpus_readable(tree),
                expected == tree_cpu_ids(tree),
                expected.len() == regs@.len(),
                per_cpu@.len() == i,
                forall|j: int| 0 <= j < i ==> #[trigger] per_cpu@[j]@ == expected[j],
            decreases regs@.len() - i,
        {
            let ghost mapped = regs@.map_values(
                |reg: Option<Vec<u8>>| crate::device_tree::bytes_view(reg),
            );
            assert(mapped[i as int] == crate::device_tree::bytes_view(regs@[i as int]));
            assert(cpu_reg_readable(cells, mapped[i as int]));
            let ids = match &regs[i] {
                Some(value) => cpu_ids_from_reg(cells, value.as_slice()),
                None => Vec::new(),
            };
            per_cpu.push(ids);
            i = i + 1;
        }
        assert(per_cpu@.map_values(|ids: Vec<usize>| ids@) =~= expected);
        join_hart_ids(&per_cpu)
    }

    /// Returns every CPU hart ID where the CPUs can be read: `None` when the
    /// tree is not sound or its CPUs cannot be read.
    pub fn try_cpu_hart_ids(&self) -> (harts: Option<Vec<usize>>)
        ensures
            harts is Some <==> device_tree_sound(self.tree()) && cpus_readable(self.tree()),
            harts is Some ==> harts->0@ == tree_hart_ids(self.tree()),
    {
        if self.is_sound() && self.cpus_are_readable() {
            Some(self.cpu_hart_ids())
        } else {
            None
        }
    }

    /// Returns the number of CPU hart IDs listed by the tree.
    pub fn cpu_count(&self) -> (count: usize)
        requires
            device_tree_sound(self.tree()),
            cpus_readable(self.tree()),
        ensures
            count == tree_hart_ids(self.tree()).len(),
    {
        self.cpu_hart_ids().len()
    }

    /// Finds the first NS16550-compatible UART.
    pub fn uart(&self) -> (uart: Option<Uart>)
        requires
            device_tree_sound(self.tree()),
        ensures
            uart == tree_uart(self.tree()),
    {
        let with = UART_COMPATIBLE.as_slice();
        let registers = match compatible_reg(self.bytes, with) {
            Some(reg) => first_address_range(reg),
            None => None,
        };
        match registers {
            Some(registers) => {
                let interrupts = match compatible_interrupt(self.bytes, with) {
                    Some(interrupts) => interrupts,
                    None => None,
                };
                Some(uart_at(registers, interrupts))
            },
            None => None,
        }
    }

    /// Finds the RISC-V platform-level interrupt controller.
    pub fn plic(&self) -> (plic: Option<Plic>)
        requires
            device_tree_sound(self.tree()),
        ensures
            plic == tree_plic(self.tree()),
    {
        let with = PLIC_COMPATIBLE.as_slice();
        let registers = match compatible_reg(self.bytes, with) {
            Some(reg) => first_address_range(reg),
            None => None,
        };
        match registers {
            Some(registers) => {
                let value = match compatible_property(self.bytes, with, PLIC_SOURCE_COUNT) {
                    Some(value) => value,
                    None => None,
                };
                Some(plic_at(registers, &value))
            },
            None => None,
        }
    }

    /// Finds the RISC-V core-local interruptor used by QEMU `virt`.
    pub fn clint(&self) -> (clint: Option<AddressRange>)
        requires
            device_tree_sound(self.tree()),
        ensures
            clint == tree_clint(self.tree()),
    {
        match compatible_reg(self.bytes, CLINT_COMPATIBLE.as_slice()) {
            Some(reg) => first_address_range(reg),
            None => None,
        }
    }

    /// Counts per-hart CPU interrupt-controller nodes.
    pub fn cpu_interrupt_controller_count(&self) -> (count: usize)
        requires
            device_tree_sound(self.tree()),
        ensures
            count == tree_cpu_interrupt_controllers(self.tree()),
    {
        count_cpu_interrupt_controllers(&compatible_lists(self.bytes))
    }

    /// Returns the total FDT size in bytes that the validated header
    /// declares, as `fdt::Fdt::total_size` reads it.
    pub fn device_tree_size(&self) -> (size: usize)
        ensures
            size == be_u32_at(self.tree(), 4),
            size <= self.tree().len(),
    {
        proof {
            use_type_invariant(self);
        }
        read_be_u32(self.bytes, 4) as usize
    }
}

// ---------------------------------------------------------------------------
// The steps of discovery.

/// Whether two byte strings are equal.
pub fn same_bytes(a: &[u8], b: &[u8]) -> (same: bool)
    ensures
        same == (a@ == b@),
{
    if a.len() != b.len() {
        return false;
    }
    let mut i: usize = 0;
    while i < a.len()
        invariant
            i <= a@.len(),
            a@.len() == b@.len(),
            forall|j: int| 0 <= j < i ==> a@[j] == b@[j],
        decreases a@.len() - i,
    {
        if a[i] != b[i] {
            return false;
        }
        i = i + 1;
    }
    assert(a@ =~= b@);
    true
}

/// Returns whether `names` holds `wanted`.
pub fn names_include(names: &Vec<Vec<u8>>, wanted: &[u8]) -> (found: bool)
    ensures
        found == names@.map_values(|name: Vec<u8>| name@).contains(wanted@),
{
    let ghost views = names@.map_values(|name: Vec<u8>| name@);
    let mut i: usize = 0;
    while i < names.len()
        invariant
            i <= names@.len(),
            views == names@.map_values(|name: Vec<u8>| name@),
            forall|j: int| 0 <= j < i ==> views[j] != wanted@,
        decreases names@.len() - i,
    {
        if same_bytes(names[i].as_slice(), wanted) {
            assert(views[i as int] == wanted@);
            return true;
        }
        i = i + 1;
    }
    false
}

/// Counts the per-hart interrupt controllers among nodes, given each node's
/// `compatible` list (`None` for a node without one).
pub fn count_cpu_interrupt_controllers(compatibles: &Vec<Option<Vec<Vec<u8>>>>) -> (count: usize)
    ensures
        count == cpu_interrupt_controllers_in(crate::device_tree::lists_view(compatibles@)),
        count <= compatibles@.len(),
{
    let ghost views = crate::device_tree::lists_view(compatibles@);
    let wanted = CPU_INTERRUPT_CONTROLLER.as_bytes();
    let mut count: usize = 0;
    let mut i: usize = 0;
    while i < compatibles.len()
        invariant
            i <= compatibles@.len(),
            views == crate::device_tree::lists_view(compatibles@),
            wanted@ == CPU_INTERRUPT_CONTROLLER.spec_bytes(),
            count == cpu_interrupt_controllers_in(views.take(i as int)),
            count <= i,
        decreases compatibles@.len() - i,
    {
        assert(views.take(i + 1).drop_last() == views.take(i as int));
        let marked = match &compatibles[i] {
            Some(names) => names_include(names, wanted),
            None => false,
        };
        if marked {
            count = count + 1;
        }
        i = i + 1;
    }
    assert(views.take(i as int) == views);
    count
}

/// Reads the hart IDs that one CPU's `reg` value lists, `cells` 32-bit cells
/// to an ID, as `fdt::standard_nodes::CpuIds::all` does.
pub fn cpu_ids_from_reg(cells: usize, reg: &[u8]) -> (ids: Vec<usize>)
    requires
        reg@.len() == 0 || cells == 1 || cells == 2,
    ensures
        ids@ == cpu_reg_ids(cells, reg@),
{
    let mut ids: Vec<usize> = Vec::new();
    let mut offset: usize = 0;
    let width: usize = if cells == 1 { 4 } else { 8 };
    assert(reg@.subrange(0, reg@.len() as int) == reg@);
    while offset <= reg.len() && reg.len() - offset >= width && (cells == 1 || cells == 2)
        invariant
            offset <= reg@.len(),
            width == if cells == 1 { 4usize } else { 8usize },
            ids@ + cpu_reg_ids(cells, reg@.subrange(offset as int, reg@.len() as int))
                == cpu_reg_ids(cells, reg@),
        decreases reg@.len() - offset,
    {
        let ghost rest = reg@.subrange(offset as int, reg@.len() as int);
        let id: usize = if cells == 1 {
            read_be_u32(reg, offset) as usize
        } else {
            let high = read_be_u32(reg, offset) as u64;
            let low = read_be_u32(reg, offset + 4) as u64;
            assert(be_u32_at(rest, 0) == be_u32_at(reg@, offset as int));
            assert(be_u32_at(rest, 4) == be_u32_at(reg@, offset + 4));
            (high * 0x1_0000_0000 + low) as usize
        };
        assert(be_u32_at(rest, 0) == be_u32_at(reg@, offset as int));
        assert(rest.subrange(width as int, rest.len() as int) == reg@.subrange(
            offset + width,
            reg@.len() as int,
        ));
        ids.push(id);
        offset = offset + width;
        assert(ids@ + cpu_reg_ids(cells, reg@.subrange(offset as int, reg@.len() as int))
            == cpu_reg_ids(cells, reg@));
    }
    assert(cpu_reg_ids(cells, reg@.subrange(offset as int, reg@.len() as int)) == Seq::<usize>::empty());
    assert(ids@ + Seq::<usize>::empty() == ids@);
    ids
}

/// Lists the hart IDs of all CPUs, given each CPU's IDs, CPU by CPU.
pub fn join_hart_ids(per_cpu: &Vec<Vec<usize>>) -> (harts: Vec<usize>)
    ensures
        harts@ == joined_hart_ids(per_cpu@.map_values(|ids: Vec<usize>| ids@)),
{
    let ghost views = per_cpu@.map_values(|ids: Vec<usize>| ids@);
    let mut harts: Vec<usize> = Vec::new();
    let mut i: usize = 0;
    while i < per_cpu.len()
        invariant
            i <= per_cpu@.len(),
            views == per_cpu@.map_values(|ids: Vec<usize>| ids@),
            harts@ == joined_hart_ids(views.take(i as int)),
        decreases per_cpu@.len() - i,
    {
        let ids = &per_cpu[i];
        let ghost before = harts@;
        let mut j: usize = 0;
        while j < ids.len()
            invariant
                j <= ids@.len(),
                harts@ == before + ids@.take(j as int),
            decreases ids@.len() - j,
        {
            harts.push(ids[j]);
            j = j + 1;
            assert(harts@ == before + ids@.take(j as int));
        }
        assert(ids@.take(j as int) == ids@);
        assert(views.take(i + 1).drop_last() == views.take(i as int));
        assert(views.take(i + 1).last() == views[i as int]);
        i = i + 1;
    }
    assert(views.take(i as int) == views);
    harts
}

/// Describes a UART found at `registers`, given its `interrupts` property as
/// the parser read it.
pub fn uart_at(registers: AddressRange, interrupts: Option<Option<usize>>) -> (uart: Uart)
    ensures
        uart == (Uart { registers, interrupt: first_listed_interrupt(interrupts) }),
{
    let interrupt = match interrupts {
        Some(first) => first,
        None => None,
    };
    Uart { registers, interrupt }
}

/// Describes a PLIC found at `registers`, given the value of its
/// source-count property, if it has one.
pub fn plic_at(registers: AddressRange, source_count_value: &Option<Vec<u8>>) -> (plic: Plic)
    ensures
        plic == (Plic {
            registers,
            interrupt_sources: source_count(crate::device_tree::bytes_view(*source_count_value)),
        }),
{
    let interrupt_sources = match source_count_value {
        Some(value) => property_as_usize(value.as_slice()),
        None => None,
    };
    Plic { registers, interrupt_sources }
}

/// The range given by a node's `reg` property, from its first region as the
/// parser read it: absent when the property cannot be read or lists no
/// region.
pub fn first_address_range(reg: Option<Option<AddressRange>>) -> (range: Option<AddressRange>)
    ensures
        range == first_range(reg),
{
    match reg {
        Some(Some(first)) => Some(first),
        _ => None,
    }
}

// ---------------------------------------------------------------------------
// Laws.

/// Validation succeeds exactly when RAM, a CPU, a UART, a PLIC and a CLINT
/// were all found.
pub proof fn lemma_validate_succeeds_iff_complete(
    memory_regions: nat,
    harts: nat,
    uart: Option<Uart>,
    plic: Option<Plic>,
    clint: Option<AddressRange>,
)
    ensures
        discovery_check(memory_regions, harts, uart, plic, clint) is Ok <==> {
            &&& memory_regions > 0
            &&& harts > 0
            &&& uart is Some
            &&& plic is Some
            &&& clint is Some
        },
{
}

/// Validation names a missing piece only when everything checked before it
/// is present and that piece is not.
pub proof fn lemma_validate_reports_first_missing(
    memory_regions: nat,
    harts: nat,
    uart: Option<Uart>,
    plic: Option<Plic>,
    clint: Option<AddressRange>,
)
    ensures
        ({
            let outcome = discovery_check(memory_regions, harts, uart, plic, clint);
            &&& outcome == Err::<(), DiscoveryError>(DiscoveryError::MissingRam) <==> memory_regions
                == 0
            &&& outcome == Err::<(), DiscoveryError>(DiscoveryError::MissingCpu) <==> memory_regions
                > 0 && harts == 0
            &&& outcome == Err::<(), DiscoveryError>(DiscoveryError::MissingUart) <==> memory_regions
                > 0 && harts > 0 && uart is None
            &&& outcome == Err::<(), DiscoveryError>(DiscoveryError::MissingPlic) <==> memory_regions
                > 0 && harts > 0 && uart is Some && plic is None
            &&& outcome == Err::<(), DiscoveryError>(DiscoveryError::MissingClint) <==> memory_regions
                > 0 && harts > 0 && uart is Some && plic is Some && clint is None
        }),
{
}

/// The hart IDs of all CPUs number as many as the CPUs list together, and
/// joining one more CPU's list appends its IDs.
pub proof fn lemma_joined_hart_ids_push(per_cpu: Seq<Seq<usize>>, ids: Seq<usize>)
    ensures
        joined_hart_ids(per_cpu.push(ids)) == joined_hart_ids(per_cpu) + ids,
{
    assert(per_cpu.push(ids).drop_last() == per_cpu);
}

/// The RAM ranges are exactly the regions that the device-tree parser reads
/// from the `reg` property of `/memory`: the same bases and sizes, in the same
/// order, none dropped, added or changed.
pub proof fn lemma_memory_regions_are_parsed_regions(tree: Seq<u8>)
    requires
        fdt_node_regions(tree, "/memory".spec_bytes()) is Some,
    ensures
        fdt_node_regions(tree, "/memory".spec_bytes()) == Some(tree_memory_regions(tree)),
        forall|i: int|
            0 <= i < tree_memory_regions(tree).len() ==> #[trigger] tree_memory_regions(tree)[i]
                == fdt_node_regions(tree, "/memory".spec_bytes())->0[i],
{
}

/// The number of hart IDs that a CPU's `reg` value of `cells`-cell words
/// lists: one per whole word.
pub open spec fn id_count(cells: usize, reg: Seq<u8>) -> int {
    if cells == 1 {
        reg.len() as int / 4
    } else if cells == 2 {
        reg.len() as int / 8
    } else {
        0
    }
}

/// The `k`-th hart ID of a CPU's `reg` value: its `k`-th big-endian word of
/// `cells` cells.
pub open spec fn id_word(cells: usize, reg: Seq<u8>, k: int) -> usize {
    if cells == 1 {
        be_u32_at(reg, 4 * k) as usize
    } else {
        be_u64_at(reg, 8 * k) as usize
    }
}

/// The number of hart IDs that the first `n` CPUs list together.
pub open spec fn ids_before(cells: usize, regs: Seq<Option<Seq<u8>>>, n: int) -> int
    decreases n,
{
    if n <= 0 {
        0
    } else {
        ids_before(cells, regs, n - 1) + id_count(cells, regs[n - 1]->0)
    }
}

/// The number of elements in the first `n` lists.
pub open spec fn lengths_before(lists: Seq<Seq<usize>>, n: int) -> int
    decreases n,
{
    if n <= 0 {
        0
    } else {
        lengths_before(lists, n - 1) + lists[n - 1].len()
    }
}

/// A CPU's IDs are its whole words, in order.
proof fn lemma_cpu_reg_ids_words(cells: usize, reg: Seq<u8>)
    ensures
        cpu_reg_ids(cells, reg).len() == id_count(cells, reg),
        forall|k: int|
            0 <= k < id_count(cells, reg) ==> #[trigger] cpu_reg_ids(cells, reg)[k] == id_word(
                cells,
                reg,
                k,
            ),
    decreases reg.len(),
{
    if cells == 1 && reg.len() >= 4 {
        let rest = reg.subrange(4, reg.len() as int);
        lemma_cpu_reg_ids_words(cells, rest);
        assert(id_count(cells, rest) == id_count(cells, reg) - 1);
        assert forall|k: int| 0 <= k < id_count(cells, reg) implies #[trigger] cpu_reg_ids(
            cells,
            reg,
        )[k] == id_word(cells, reg, k) by {
            if k > 0 {
                assert(cpu_reg_ids(cells, reg)[k] == cpu_reg_ids(cells, rest)[k - 1]);
                assert(rest[4 * (k - 1)] == reg[4 * k]);
                assert(rest[4 * (k - 1) + 1] == reg[4 * k + 1]);
                assert(rest[4 * (k - 1) + 2] == reg[4 * k + 2]);
                assert(rest[4 * (k - 1) + 3] == reg[4 * k + 3]);
            }
        }
    } else if cells == 2 && reg.len() >= 8 {
        let rest = reg.subrange(8, reg.len() as int);
        lemma_cpu_reg_ids_words(cells, rest);
        assert(id_count(cells, rest) == id_count(cells, reg) - 1);
        assert forall|k: int| 0 <= k < id_count(cells, reg) implies #[trigger] cpu_reg_ids(
            cells,
            reg,
        )[k] == id_word(cells, reg, k) by {
            if k > 0 {
                assert(cpu_reg_ids(cells, reg)[k] == cpu_reg_ids(cells, rest)[k - 1]);
                assert(rest[8 * (k - 1)] == reg[8 * k]);
                assert(rest[8 * (k - 1) + 1] == reg[8 * k + 1]);
                assert(rest[8 * (k - 1) + 2] == reg[8 * k + 2]);
                assert(rest[8 * (k - 1) + 3] == reg[8 * k + 3]);
                assert(rest[8 * (k - 1) + 4] == reg[8 * k + 4]);
                assert(rest[8 * (k - 1) + 5] == reg[8 * k + 5]);
                assert(rest[8 * (k - 1) + 6] == reg[8 * k + 6]);
                assert(rest[8 * (k - 1) + 7] == reg[8 * k + 7]);
            }
        }
    }
}

/// The count before `n` depends only on the first `n` lists.
proof fn lemma_lengths_before_prefix(a: Seq<Seq<usize>>, b: Seq<Seq<usize>>, n: int)
    requires
        0 <= n <= a.len(),
        n <= b.len(),
        forall|j: int| 0 <= j < n ==> a[j] == b[j],
    ensures
        lengths_before(a, n) == lengths_before(b, n),
    decreases n,
{
    if n > 0 {
        lemma_lengths_before_prefix(a, b, n - 1);
    }
}

/// Counts before a later list are no smaller.
proof fn lemma_lengths_before_grows(lists: Seq<Seq<usize>>, i: int, n: int)
    requires
        0 <= i <= n,
    ensures
        lengths_before(lists, i) <= lengths_before(lists, n),
    decreases n - i,
{
    if i < n {
        lemma_lengths_before_grows(lists, i, n - 1);
    }
}

/// Joining lists puts the `k`-th element of list `i` right after all the
/// elements of the lists before it.
proof fn lemma_joined_positions(lists: Seq<Seq<usize>>)
    ensures
        joined_hart_ids(lists).len() == lengths_before(lists, lists.len() as int),
        forall|i: int, k: int|
            0 <= i < lists.len() && 0 <= k < lists[i].len() ==> joined_hart_ids(lists)[lengths_before(
                lists,
                i,
            ) + k] == lists[i][k],
    decreases lists.len(),
{
    if lists.len() > 0 {
        let front = lists.drop_last();
        let n = lists.len() - 1;
        lemma_joined_positions(front);
        lemma_lengths_before_prefix(lists, front, n);
        assert(joined_hart_ids(lists) == joined_hart_ids(front) + lists.last());
        assert forall|i: int, k: int|
            0 <= i < lists.len() && 0 <= k < lists[i].len() implies joined_hart_ids(
                lists,
            )[lengths_before(lists, i) + k] == lists[i][k] by {
            if i < n {
                lemma_lengths_before_prefix(lists, front, i);
                lemma_lengths_before_prefix(lists, front, i + 1);
                lemma_lengths_before_grows(front, i + 1, n);
                lemma_lengths_before_grows(front, 0, i);
                assert(front[i] == lists[i]);
                assert(lengths_before(front, i + 1) == lengths_before(front, i) + front[i].len());
                assert(lengths_before(front, i) + k < joined_hart_ids(front).len());
                assert(joined_hart_ids(front)[lengths_before(front, i) + k] == front[i][k]);
                assert(joined_hart_ids(lists)[lengths_before(front, i) + k] == joined_hart_ids(
                    front,
                )[lengths_before(front, i) + k]);
            } else {
                lemma_lengths_before_grows(lists, 0, i);
                assert(i == n);
                assert(lengths_before(lists, i) == joined_hart_ids(front).len());
                assert(lists.last() == lists[i]);
                assert(joined_hart_ids(lists)[lengths_before(lists, i) + k] == lists.last()[k]);
            }
        }
    }
}

/// The counts before each CPU's IDs, read from the `reg` values and from the
/// decoded lists, agree.
proof fn lemma_ids_before_lengths(cells: usize, regs: Seq<Option<Seq<u8>>>, lists: Seq<Seq<usize>>, n: int)
    requires
        0 <= n <= regs.len(),
        lists.len() == regs.len(),
        forall|j: int| 0 <= j < regs.len() ==> #[trigger] lists[j].len() == id_count(cells, regs[j]->0),
    ensures
        ids_before(cells, regs, n) == lengths_before(lists, n),
    decreases n,
{
    if n > 0 {
        lemma_ids_before_lengths(cells, regs, lists, n - 1);
    }
}

/// Every hart ID that a CPU's `reg` value lists is reported, CPU by CPU in
/// tree order and word by word within a CPU, and nothing else: the `k`-th
/// word of CPU `i` stands right after all the IDs of the CPUs before it, and
/// the list holds as many IDs as the CPUs list together.
pub proof fn lemma_hart_ids_list_every_cpu_id(tree: Seq<u8>)
    requires
        fdt_cpu_regs(tree) is Some,
        forall|i: int|
            0 <= i < (fdt_cpu_regs(tree)->0).1.len() ==> #[trigger] (fdt_cpu_regs(tree)->0).1[i] is Some,
    ensures
        ({
            let (cells, regs) = fdt_cpu_regs(tree)->0;
            &&& tree_hart_ids(tree).len() == ids_before(cells, regs, regs.len() as int)
            &&& forall|i: int, k: int|
                0 <= i < regs.len() && 0 <= k < id_count(cells, regs[i]->0)
                    ==> tree_hart_ids(tree)[ids_before(cells, regs, i) + k] == id_word(
                    cells,
                    regs[i]->0,
                    k,
                )
        }),
{
    let (cells, regs) = fdt_cpu_regs(tree)->0;
    let lists = tree_cpu_ids(tree);
    assert forall|j: int| 0 <= j < regs.len() implies #[trigger] lists[j].len() == id_count(
        cells,
        regs[j]->0,
    ) by {
        assert(regs[j] is Some);
        lemma_cpu_reg_ids_words(cells, regs[j]->0);
    }
    lemma_joined_positions(lists);
    lemma_ids_before_lengths(cells, regs, lists, regs.len() as int);
    assert forall|i: int, k: int|
        0 <= i < regs.len() && 0 <= k < id_count(cells, regs[i]->0) implies tree_hart_ids(
            tree,
        )[ids_before(cells, regs, i) + k] == id_word(cells, regs[i]->0, k) by {
        lemma_ids_before_lengths(cells, regs, lists, i);
        lemma_cpu_reg_ids_words(cells, regs[i]->0);
        assert(lists[i] == cpu_reg_ids(cells, regs[i]->0));
        assert(lists[i][k] == id_word(cells, regs[i]->0, k));
    }
}

/// The UART is the first node compatible with `ns16550a` or `ns16550`, found
/// exactly when that node's `reg` lists a region: its registers are that
/// first region and its interrupt the first one its `interrupts` lists.
pub proof fn lemma_uart_is_first_16550(tree: Seq<u8>)
    ensures
        ({
            let with = texts_bytes(seq!["ns16550a", "ns16550"]);
            &&& tree_uart(tree) is Some <==> match fdt_compatible_reg(tree, with) {
                Some(Some(Some(_))) => true,
                _ => false,
            }
            &&& tree_uart(tree) is Some ==> {
                let uart = tree_uart(tree)->0;
                &&& fdt_compatible_reg(tree, with) == Some(Some(Some(uart.registers)))
                &&& uart.interrupt == match fdt_compatible_interrupt(tree, with) {
                    Some(Some(Some(interrupt))) => Some(interrupt),
                    _ => None,
                }
            }
        }),
{
}

/// The PLIC is the first node compatible with `sifive,plic-1.0.0` or
/// `riscv,plic0`, found exactly when that node's `reg` lists a region: its
/// registers are that first region and its interrupt sources the number in
/// its `riscv,ndev` property.
pub proof fn lemma_plic_is_first_compatible(tree: Seq<u8>)
    ensures
        ({
            let with = texts_bytes(seq!["sifive,plic-1.0.0", "riscv,plic0"]);
            &&& tree_plic(tree) is Some <==> match fdt_compatible_reg(tree, with) {
                Some(Some(Some(_))) => true,
                _ => false,
            }
            &&& tree_plic(tree) is Some ==> {
                let plic = tree_plic(tree)->0;
                &&& fdt_compatible_reg(tree, with) == Some(Some(Some(plic.registers)))
                &&& plic.interrupt_sources == match fdt_compatible_property(
                    tree,
                    with,
                    "riscv,ndev".spec_bytes(),
                ) {
                    Some(Some(value)) => property_usize(value),
                    _ => None,
                }
            }
        }),
{
}

/// The CLINT is the first region listed by the first node compatible with
/// `sifive,clint0` or `riscv,clint0`, and there is none without one.
pub proof fn lemma_clint_is_first_compatible(tree: Seq<u8>)
    ensures
        tree_clint(tree) == match fdt_compatible_reg(
            tree,
            texts_bytes(seq!["sifive,clint0", "riscv,clint0"]),
        ) {
            Some(Some(Some(registers))) => Some(registers),
            _ => None,
        },
{
}

} // verus!
