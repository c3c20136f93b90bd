use riscvrust::device_tree::{property_as_usize, DeviceTreeError};
use riscvrust::platform::{
    count_cpu_interrupt_controllers, cpu_ids_from_reg, first_address_range, join_hart_ids,
    names_include, plic_at, same_bytes, uart_at, AddressRange, DiscoveryError, Platform, Plic,
    Uart,
};
use riscvrust::structure::check_device_tree;

const BEGIN_NODE: u32 = 1;
const END_NODE: u32 = 2;
const PROP: u32 = 3;
const END: u32 = 9;

/// Builds the structure and strings blocks of a flattened device tree.
struct TreeBuilder {
    structure: Vec<u8>,
    strings: Vec<u8>,
}

impl TreeBuilder {
    fn new() -> Self {
        TreeBuilder { structure: Vec::new(), strings: Vec::new() }
    }

    fn word(&mut self, value: u32) {
        self.structure.extend_from_slice(&value.to_be_bytes());
    }

    fn pad(&mut self) {
        while self.structure.len() % 4 != 0 {
            self.structure.push(0);
        }
    }

    fn begin(&mut self, name: &str) {
        self.word(BEGIN_NODE);
        self.structure.extend_from_slice(name.as_bytes());
        self.structure.push(0);
        self.pad();
    }

    fn nop(&mut self) {
        self.word(4);
    }

    fn end(&mut self) {
        self.word(END_NODE);
    }

    fn property(&mut self, name: &str, value: &[u8]) {
        let offset = self.strings.len() as u32;
        self.strings.extend_from_slice(name.as_bytes());
        self.strings.push(0);
        self.word(PROP);
        self.word(value.len() as u32);
        self.word(offset);
        self.structure.extend_from_slice(value);
        self.pad();
    }

    fn property_u32s(&mut self, name: &str, values: &[u32]) {
        let bytes: Vec<u8> = values.iter().flat_map(|value| value.to_be_bytes()).collect();
        self.property(name, &bytes);
    }

    fn property_strings(&mut self, name: &str, values: &[&str]) {
        let mut bytes = Vec::new();
        for value in values {
            bytes.extend_from_slice(value.as_bytes());
            bytes.push(0);
        }
        self.property(name, &bytes);
    }

    fn finish(mut self) -> Vec<u8> {
        self.word(END);
        let reservations = vec![0u8; 16];
        let header_size = 40u32;
        let off_mem_rsvmap = header_size;
        let off_dt_struct = off_mem_rsvmap + reservations.len() as u32;
        let off_dt_strings = off_dt_struct + self.structure.len() as u32;
        let total = off_dt_strings + self.strings.len() as u32;
        let mut tree = Vec::new();
        for value in [
            0xd00d_feed,
            total,
            off_dt_struct,
            off_dt_strings,
            off_mem_rsvmap,
            17,
            16,
            0,
            self.strings.len() as u32,
            self.structure.len() as u32,
        ] {
            tree.extend_from_slice(&u32::to_be_bytes(value));
        }
        tree.extend_from_slice(&reservations);
        tree.extend_from_slice(&self.structure);
        tree.extend_from_slice(&self.strings);
        tree
    }
}

/// What a test tree holds.
#[derive(Clone, Copy)]
struct Shape {
    memory: bool,
    ram: bool,
    cpus: bool,
    harts: u32,
    uart: bool,
    plic: bool,
    clint: bool,
}

const VIRT: Shape =
    Shape { memory: true, ram: true, cpus: true, harts: 2, uart: true, plic: true, clint: true };

/// A small QEMU `virt`-like tree of the given shape.
fn tree(shape: Shape) -> Vec<u8> {
    let mut tree = TreeBuilder::new();
    tree.begin("");
    tree.property_u32s("#address-cells", &[2]);
    tree.property_u32s("#size-cells", &[2]);
    tree.property_strings("compatible", &["riscv-virtio"]);

    if shape.memory {
        tree.begin("memory@80000000");
        tree.property_strings("device_type", &["memory"]);
        if shape.ram {
            tree.property_u32s("reg", &[0, 0x8000_0000, 0, 0x0800_0000]);
        } else {
            tree.property_u32s("reg", &[]);
        }
        tree.end();
    }

    if shape.cpus {
        tree.begin("cpus");
        tree.property_u32s("#address-cells", &[1]);
        tree.property_u32s("#size-cells", &[0]);
        for hart in 0..shape.harts {
            tree.begin(&format!("cpu@{hart}"));
            tree.property_strings("device_type", &["cpu"]);
            tree.property_u32s("reg", &[hart]);
            tree.begin("interrupt-controller");
            tree.property_u32s("#interrupt-cells", &[1]);
            tree.property_strings("compatible", &["riscv,cpu-intc"]);
            tree.end();
            tree.end();
        }
        tree.end();
    }

    tree.begin("soc");
    tree.property_u32s("#address-cells", &[2]);
    tree.property_u32s("#size-cells", &[2]);
    tree.property_u32s("#interrupt-cells", &[1]);

    if shape.uart {
        tree.begin("serial@10000000");
        tree.property_u32s("interrupts", &[10]);
        tree.property_u32s("reg", &[0, 0x1000_0000, 0, 0x100]);
        tree.property_strings("compatible", &["ns16550a"]);
        tree.end();
    }

    if shape.plic {
        tree.begin("plic@c000000");
        tree.property_u32s("riscv,ndev", &[95]);
        tree.property_u32s("reg", &[0, 0x0c00_0000, 0, 0x0060_0000]);
        tree.property_strings("compatible", &["sifive,plic-1.0.0", "riscv,plic0"]);
        tree.end();
    }

    if shape.clint {
        tree.begin("clint@2000000");
        tree.property_u32s("reg", &[0, 0x0200_0000, 0, 0x0001_0000]);
        tree.property_strings("compatible", &["sifive,clint0", "riscv,clint0"]);
        tree.end();
    }

    tree.end();
    tree.end();
    tree.finish()
}

#[test]
fn discovers_qemu_virt_hardware() {
    let bytes = tree(VIRT);
    let platform = Platform::from_bytes(&bytes).unwrap();

    assert!(platform.is_sound());
    assert!(platform.memory_is_readable());
    assert!(platform.cpus_are_readable());
    assert_eq!(platform.validate(), Ok(()));
    assert_eq!(platform.try_validate(), Some(Ok(())));
    assert_eq!(
        platform.memory_regions(),
        vec![AddressRange { base: 0x8000_0000, size: Some(0x0800_0000) }]
    );
    assert_eq!(platform.memory_region_count(), 1);
    assert_eq!(platform.cpu_hart_ids(), vec![0, 1]);
    assert_eq!(platform.cpu_count(), 2);
    assert_eq!(
        platform.uart(),
        Some(Uart {
            registers: AddressRange { base: 0x1000_0000, size: Some(0x100) },
            interrupt: Some(10),
        })
    );
    assert_eq!(
        platform.plic(),
        Some(Plic {
            registers: AddressRange { base: 0x0c00_0000, size: Some(0x0060_0000) },
            interrupt_sources: Some(95),
        })
    );
    assert_eq!(
        platform.clint(),
        Some(AddressRange { base: 0x0200_0000, size: Some(0x0001_0000) })
    );
    assert_eq!(platform.cpu_interrupt_controller_count(), 2);
    assert_eq!(platform.device_tree_size(), bytes.len());
}

#[test]
fn validation_checks_in_order() {
    let cases = [
        (Shape { ram: false, ..VIRT }, DiscoveryError::MissingRam),
        (Shape { harts: 0, ..VIRT }, DiscoveryError::MissingCpu),
        (Shape { uart: false, ..VIRT }, DiscoveryError::MissingUart),
        (Shape { plic: false, ..VIRT }, DiscoveryError::MissingPlic),
        (Shape { clint: false, ..VIRT }, DiscoveryError::MissingClint),
    ];
    for (shape, expected) in cases {
        let bytes = tree(shape);
        let platform = Platform::from_bytes(&bytes).unwrap();
        assert!(platform.is_sound());
        assert_eq!(platform.validate(), Err(expected));
        assert_eq!(platform.try_validate(), Some(Err(expected)));
    }
}

#[test]
fn missing_memory_node_cannot_be_read() {
    let bytes = tree(Shape { memory: false, ..VIRT });
    let platform = Platform::from_bytes(&bytes).unwrap();
    assert!(platform.is_sound());
    assert!(!platform.memory_is_readable());
    assert_eq!(platform.try_memory_regions(), None);
    assert_eq!(platform.try_validate(), None);
    assert_eq!(platform.uart().map(|uart| uart.interrupt), Some(Some(10)));
}

#[test]
fn missing_cpus_node_cannot_be_read() {
    let bytes = tree(Shape { cpus: false, ..VIRT });
    let platform = Platform::from_bytes(&bytes).unwrap();
    assert!(platform.is_sound());
    assert!(!platform.cpus_are_readable());
    assert_eq!(platform.try_cpu_hart_ids(), None);
    assert_eq!(platform.try_validate(), None);
    assert_eq!(platform.cpu_interrupt_controller_count(), 0);
    assert_eq!(platform.memory_region_count(), 1);
}

#[test]
fn malformed_structure_is_not_sound() {
    let mut bytes = tree(VIRT);
    // Turn the root's first property token into an unknown token.
    let structure = u32::from_be_bytes([bytes[8], bytes[9], bytes[10], bytes[11]]) as usize;
    bytes[structure + 11] = 7;
    let platform = Platform::from_bytes(&bytes).unwrap();
    assert!(!platform.is_sound());
    assert_eq!(platform.try_validate(), None);
    assert_eq!(platform.try_memory_regions(), None);
    assert_eq!(platform.try_cpu_hart_ids(), None);
}

#[test]
fn short_cell_size_is_sound_only_where_never_read() {
    // In a node without children the cell sizes are never read.
    let mut builder = TreeBuilder::new();
    builder.begin("");
    builder.begin("leaf");
    builder.property("#address-cells", &[0, 1]);
    builder.end();
    builder.end();
    assert!(check_device_tree(&builder.finish()));

    // In a node with a child they are read for the child's `reg`.
    let mut builder = TreeBuilder::new();
    builder.begin("");
    builder.property("#address-cells", &[0, 1]);
    builder.begin("memory@0");
    builder.end();
    builder.end();
    assert!(!check_device_tree(&builder.finish()));

    // The cell sizes of `/cpus` are always read.
    let mut builder = TreeBuilder::new();
    builder.begin("");
    builder.begin("cpus");
    builder.property("#size-cells", &[0]);
    builder.end();
    builder.end();
    assert!(!check_device_tree(&builder.finish()));

    let mut builder = TreeBuilder::new();
    builder.begin("");
    builder.property_u32s("#address-cells", &[2]);
    builder.end();
    assert!(check_device_tree(&builder.finish()));
}

/// The QEMU `virt`-like tree with `FDT_NOP` words before the root and before
/// the end token and, with `inner`, also before the ends of `/memory` and
/// `/cpus`.
fn tree_with_nops(inner: bool) -> Vec<u8> {
    let mut tree = TreeBuilder::new();
    tree.nop();
    tree.begin("");
    tree.property_u32s("#address-cells", &[2]);
    tree.property_u32s("#size-cells", &[2]);
    tree.begin("memory@80000000");
    tree.property_u32s("reg", &[0, 0x8000_0000, 0, 0x0800_0000]);
    if inner {
        tree.nop();
    }
    tree.end();
    tree.begin("cpus");
    tree.property_u32s("#address-cells", &[1]);
    tree.property_u32s("#size-cells", &[0]);
    tree.begin("cpu@0");
    tree.property_u32s("reg", &[0]);
    tree.end();
    if inner {
        tree.nop();
    }
    tree.end();
    tree.begin("soc");
    tree.property_u32s("#address-cells", &[2]);
    tree.property_u32s("#size-cells", &[2]);
    tree.property_u32s("#interrupt-cells", &[1]);
    tree.begin("serial@10000000");
    tree.property_u32s("interrupts", &[10]);
    tree.property_u32s("reg", &[0, 0x1000_0000, 0, 0x100]);
    tree.property_strings("compatible", &["ns16550a"]);
    tree.end();
    tree.begin("plic@c000000");
    tree.property_u32s("reg", &[0, 0x0c00_0000, 0, 0x0060_0000]);
    tree.property_strings("compatible", &["riscv,plic0"]);
    tree.end();
    tree.begin("clint@2000000");
    tree.property_u32s("reg", &[0, 0x0200_0000, 0, 0x0001_0000]);
    tree.property_strings("compatible", &["riscv,clint0"]);
    tree.end();
    tree.end();
    tree.end();
    tree.nop();
    tree.finish()
}

#[test]
fn nop_words_the_parser_skips_are_sound() {
    let bytes = tree_with_nops(false);
    let platform = Platform::from_bytes(&bytes).unwrap();
    assert!(platform.is_sound());
    assert_eq!(platform.validate(), Ok(()));
    assert_eq!(platform.cpu_hart_ids(), vec![0]);
    assert_eq!(platform.memory_region_count(), 1);

    // A word before a node's end stops the parser's depth-first walk there,
    // so the devices after it are not found; nothing panics.
    let bytes = tree_with_nops(true);
    let platform = Platform::from_bytes(&bytes).unwrap();
    assert!(platform.is_sound());
    assert_eq!(platform.cpu_hart_ids(), vec![0]);
    assert_eq!(platform.memory_region_count(), 1);
    assert_eq!(platform.uart(), None);
    assert_eq!(platform.validate(), Err(DiscoveryError::MissingUart));
}

#[test]
fn nop_words_between_properties_are_not_sound() {
    let mut tree = TreeBuilder::new();
    tree.begin("");
    tree.property_u32s("#address-cells", &[2]);
    tree.nop();
    tree.property_u32s("#size-cells", &[2]);
    tree.end();
    assert!(!check_device_tree(&tree.finish()));
}

#[test]
fn utf8_names_are_sound() {
    let mut tree = TreeBuilder::new();
    tree.begin("");
    tree.begin("gerät@0");
    tree.property_strings("größe", &["x"]);
    tree.end();
    tree.end();
    assert!(check_device_tree(&tree.finish()));

    let mut tree = TreeBuilder::new();
    tree.begin("");
    tree.word(BEGIN_NODE);
    tree.structure.extend_from_slice(&[0xff, 0]);
    tree.pad();
    tree.end();
    tree.end();
    assert!(!check_device_tree(&tree.finish()));
}

#[test]
fn property_names_with_a_leading_slash_are_not_sound() {
    let mut tree = TreeBuilder::new();
    tree.begin("");
    tree.begin("aliases");
    tree.property_strings("/memory", &["/memory"]);
    tree.end();
    tree.end();
    assert!(!check_device_tree(&tree.finish()));
}

#[test]
fn rejects_short_buffer() {
    let bytes = tree(VIRT);
    assert_eq!(Platform::from_bytes(&bytes[..39]).err(), Some(DeviceTreeError::BufferTooSmall));
    assert_eq!(Platform::from_bytes(&[]).err(), Some(DeviceTreeError::BufferTooSmall));
}

#[test]
fn rejects_bad_magic() {
    let mut bytes = tree(VIRT);
    bytes[0] = 0;
    assert_eq!(Platform::from_bytes(&bytes).err(), Some(DeviceTreeError::BadMagic));
}

#[test]
fn rejects_truncated_tree() {
    let bytes = tree(VIRT);
    let truncated = &bytes[..bytes.len() - 1];
    assert_eq!(Platform::from_bytes(truncated).err(), Some(DeviceTreeError::BufferTooSmall));
}

fn region(base: usize) -> AddressRange {
    AddressRange { base, size: Some(0x1000) }
}

#[test]
fn reads_property_numbers() {
    assert_eq!(property_as_usize(&[0, 0, 0, 95]), Some(95));
    assert_eq!(property_as_usize(&[0x12, 0x34, 0x56, 0x78]), Some(0x1234_5678));
    assert_eq!(property_as_usize(&[0, 0, 0, 1, 0, 0, 0, 2]), Some(0x1_0000_0002));
    assert_eq!(property_as_usize(&[0xff; 8]), Some(usize::MAX));
    assert_eq!(property_as_usize(&[0, 0, 95]), None);
    assert_eq!(property_as_usize(&[]), None);
}

#[test]
fn reads_cpu_ids() {
    assert_eq!(cpu_ids_from_reg(1, &[0, 0, 0, 3, 0, 0, 0, 4]), vec![3, 4]);
    assert_eq!(cpu_ids_from_reg(2, &[0, 0, 0, 1, 0, 0, 0, 2]), vec![0x1_0000_0002]);
    assert_eq!(cpu_ids_from_reg(1, &[0, 0, 0, 3, 0, 0]), vec![3]);
    assert_eq!(cpu_ids_from_reg(3, &[]), Vec::<usize>::new());
}

#[test]
fn counts_cpu_interrupt_controllers() {
    let names = |list: &[&str]| Some(list.iter().map(|name| name.as_bytes().to_vec()).collect::<Vec<_>>());
    let compatibles = vec![
        names(&["riscv-virtio"]),
        names(&["riscv,cpu-intc"]),
        None,
        names(&["sifive,plic-1.0.0", "riscv,plic0"]),
        names(&["other", "riscv,cpu-intc", "riscv,cpu-intc"]),
        names(&["riscv,cpu-intc-x"]),
    ];
    assert_eq!(count_cpu_interrupt_controllers(&compatibles), 2);
    assert_eq!(count_cpu_interrupt_controllers(&vec![]), 0);
}

#[test]
fn compares_names_exactly() {
    assert!(same_bytes(b"ns16550a", b"ns16550a"));
    assert!(!same_bytes(b"ns16550a", b"ns16550"));
    assert!(names_include(&vec![b"a".to_vec(), b"riscv,clint0".to_vec()], b"riscv,clint0"));
    assert!(!names_include(&vec![b"a".to_vec(), b"riscv,clint".to_vec()], b"riscv,clint0"));
}

#[test]
fn address_range_needs_a_first_region() {
    assert_eq!(first_address_range(None), None);
    assert_eq!(first_address_range(Some(None)), None);
    assert_eq!(first_address_range(Some(Some(region(1)))), Some(region(1)));
}

#[test]
fn joins_hart_ids_cpu_by_cpu() {
    assert_eq!(join_hart_ids(&vec![vec![0], vec![], vec![2, 3]]), vec![0, 2, 3]);
    assert_eq!(join_hart_ids(&vec![]), Vec::<usize>::new());
}

#[test]
fn uart_takes_its_first_interrupt() {
    let registers = region(0x1000_0000);
    assert_eq!(uart_at(registers, Some(Some(10))), Uart { registers, interrupt: Some(10) });
    assert_eq!(uart_at(registers, Some(None)), Uart { registers, interrupt: None });
    assert_eq!(uart_at(registers, None), Uart { registers, interrupt: None });
}

#[test]
fn plic_reads_its_source_count() {
    let registers = region(0x0c00_0000);
    assert_eq!(
        plic_at(registers, &Some(vec![0, 0, 0, 95])),
        Plic { registers, interrupt_sources: Some(95) }
    );
    assert_eq!(plic_at(registers, &Some(vec![0, 95])), Plic { registers, interrupt_sources: None });
    assert_eq!(plic_at(registers, &None), Plic { registers, interrupt_sources: None });
}
