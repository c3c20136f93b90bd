//! The flattened device tree, read through the `fdt` crate.
//!
//! Each query of the tree is a function of its bytes. The wrappers below
//! parse the bytes with `fdt::Fdt::new` and ask one question of the parsed
//! tree; each names its answer with a specification function of the bytes.
//! All of them require a sound tree (see `crate::structure`), on which the
//! `fdt` crate's traversal does not panic.

use vstd::prelude::*;
use vstd::string::StringSliceAdditionalSpecFns;
use fdt::{Fdt, FdtError};
use crate::platform::AddressRange;
use crate::structure::device_tree_sound;

verus! {

/// The magic number that opens every flattened device tree.
pub const FDT_MAGIC: u32 = 0xd00d_feed;

/// Size in bytes of the device-tree header: ten big-endian `u32` fields.
pub const FDT_HEADER_SIZE: usize = 40;

/// Errors when parsing a flattened device tree.
#[derive(Clone, Copy, Debug, PartialEq, Eq, Structural)]
pub enum DeviceTreeError {
    /// The tree does not start with the device-tree magic number.
    BadMagic,
    /// The address given for the tree was null.
    BadPtr,
    /// The bytes are too few for the header or for the size it declares.
    BufferTooSmall,
}

/// The big-endian `u32` stored at `offset` in `bytes`.
pub open spec fn be_u32_at(bytes: Seq<u8>, offset: int) -> int {
    bytes[offset] * 0x100_0000 + bytes[offset + 1] * 0x1_0000 + bytes[offset + 2] * 0x100
        + bytes[offset + 3]
}

/// The checks that `Fdt::new` makes of the header at the start of `bytes`:
/// room for the whole header, the magic number, and room for the total size
/// that the header declares.
pub open spec fn header_check(bytes: Seq<u8>) -> Result<(), DeviceTreeError> {
    if bytes.len() < FDT_HEADER_SIZE {
        Err(DeviceTreeError::BufferTooSmall)
    } else if be_u32_at(bytes, 0) != FDT_MAGIC {
        Err(DeviceTreeError::BadMagic)
    } else if bytes.len() < be_u32_at(bytes, 4) {
        Err(DeviceTreeError::BufferTooSmall)
    } else {
        Ok(())
    }
}

/// The big-endian `u64` stored at `offset` in `bytes`.
pub open spec fn be_u64_at(bytes: Seq<u8>, offset: int) -> int {
    be_u32_at(bytes, offset) * 0x1_0000_0000 + be_u32_at(bytes, offset + 4)
}

/// The value of a device-tree property read as a `usize`: a property of four
/// bytes holds a big-endian `u32`, one of eight bytes a big-endian `u64`;
/// any other length holds none.
pub open spec fn property_usize(value: Seq<u8>) -> Option<usize> {
    if value.len() == 4 {
        Some(be_u32_at(value, 0) as usize)
    } else if value.len() == 8 {
        Some(be_u64_at(value, 0) as usize)
    } else {
        None
    }
}

/// Reads a property value as a `usize`, as `fdt::node::NodeProperty::as_usize`
/// does.
pub fn property_as_usize(value: &[u8]) -> (number: Option<usize>)
    ensures
        number == property_usize(value@),
{
    if value.len() == 4 {
        let word: u64 = value[0] as u64 * 0x100_0000 + value[1] as u64 * 0x1_0000 + value[2] as u64
            * 0x100 + value[3] as u64;
        Some(word as usize)
    } else if value.len() == 8 {
        let high: u64 = value[0] as u64 * 0x100_0000 + value[1] as u64 * 0x1_0000 + value[2] as u64
            * 0x100 + value[3] as u64;
        let low: u64 = value[4] as u64 * 0x100_0000 + value[5] as u64 * 0x1_0000 + value[6] as u64
            * 0x100 + value[7] as u64;
        let word: u64 = high * 0x1_0000_0000 + low;
        Some(word as usize)
    } else {
        None
    }
}

/// Calls `fdt::Fdt::new`, which reads the header at the start of `bytes`.
/// Its source returns `BufferTooSmall` when the ten header words do not fit,
/// `BadMagic` when the first word is not the magic number, and
/// `BufferTooSmall` when `bytes` is shorter than the total size in the second
/// word; otherwise it succeeds. The contract states these outcomes.
#[verifier::external_body]
pub(crate) fn parse_fdt(bytes: &[u8]) -> (parsed: Result<(), DeviceTreeError>)
    ensures
        parsed == header_check(bytes@),
{
    match Fdt::new(bytes) {
        Ok(_) => Ok(()),
        Err(FdtError::BadMagic) => Err(DeviceTreeError::BadMagic),
        Err(FdtError::BadPtr) => Err(DeviceTreeError::BadPtr),
        Err(FdtError::BufferTooSmall) => Err(DeviceTreeError::BufferTooSmall),
    }
}

/// The bytes of each string of `texts`.
pub open spec fn texts_bytes(texts: Seq<&str>) -> Seq<Seq<u8>> {
    texts.map_values(|text: &str| text.spec_bytes())
}

/// The regions of the `reg` property of the node at `path` in the tree
/// `bytes`, as `fdt::node::FdtNode::reg` reads them: `None` when the tree has
/// no node at `path` or `reg` cannot read the property.
pub uninterp spec fn fdt_node_regions(bytes: Seq<u8>, path: Seq<u8>) -> Option<Seq<AddressRange>>;

/// The `#address-cells` value of `/cpus`, with the `reg` value of each of
/// its `cpu` children in tree order, as `fdt::Fdt::cpus` lists them:
/// `None` when the tree has no `/cpus` node.
pub uninterp spec fn fdt_cpu_regs(bytes: Seq<u8>) -> Option<(usize, Seq<Option<Seq<u8>>>)>;

/// For the first node (depth-first) whose `compatible` list holds one of
/// `with`, what `fdt::node::FdtNode::reg` gives of its first region; `None`
/// when no node is compatible.
pub uninterp spec fn fdt_compatible_reg(bytes: Seq<u8>, with: Seq<Seq<u8>>) -> Option<
    Option<Option<AddressRange>>,
>;

/// For the first node (depth-first) whose `compatible` list holds one of
/// `with`, what `fdt::node::FdtNode::interrupts` gives of its first
/// interrupt; `None` when no node is compatible.
pub uninterp spec fn fdt_compatible_interrupt(bytes: Seq<u8>, with: Seq<Seq<u8>>) -> Option<
    Option<Option<usize>>,
>;

/// For the first node (depth-first) whose `compatible` list holds one of
/// `with`, the value of its first property called `name`; `None` when no
/// node is compatible.
pub uninterp spec fn fdt_compatible_property(
    bytes: Seq<u8>,
    with: Seq<Seq<u8>>,
    name: Seq<u8>,
) -> Option<Option<Seq<u8>>>;

/// The `compatible` list of every node of the tree, depth-first, each string
/// by its bytes; `None` for a node without one.
pub uninterp spec fn fdt_compatible_lists(bytes: Seq<u8>) -> Seq<Option<Seq<Seq<u8>>>>;

/// An optional list of regions, by its view.
pub open spec fn regions_view(regions: Option<Vec<AddressRange>>) -> Option<Seq<AddressRange>> {
    match regions {
        Some(list) => Some(list@),
        None => None,
    }
}

/// An optional byte string, by its view.
pub open spec fn bytes_view(value: Option<Vec<u8>>) -> Option<Seq<u8>> {
    match value {
        Some(bytes) => Some(bytes@),
        None => None,
    }
}

/// A compatible node's property value, by its view.
pub open spec fn property_view(value: Option<Option<Vec<u8>>>) -> Option<Option<Seq<u8>>> {
    match value {
        Some(found) => Some(bytes_view(found)),
        None => None,
    }
}

/// The CPU `reg` values, by their views.
pub open spec fn cpu_regs_view(cpus: Option<(usize, Vec<Option<Vec<u8>>>)>) -> Option<
    (usize, Seq<Option<Seq<u8>>>),
> {
    match cpus {
        Some((cells, regs)) => Some((cells, regs@.map_values(|reg: Option<Vec<u8>>| bytes_view(reg)))),
        None => None,
    }
}

/// One node's `compatible` list, by its view.
pub open spec fn names_view(names: Option<Vec<Vec<u8>>>) -> Option<Seq<Seq<u8>>> {
    match names {
        Some(list) => Some(list@.map_values(|name: Vec<u8>| name@)),
        None => None,
    }
}

/// Every node's `compatible` list, by its view.
pub open spec fn lists_view(lists: Seq<Option<Vec<Vec<u8>>>>) -> Seq<Option<Seq<Seq<u8>>>> {
    lists.map_values(|names: Option<Vec<Vec<u8>>>| names_view(names))
}

/// Parses the tree with `fdt::Fdt::new` and calls `fdt::Fdt::find_node` and
/// `fdt::node::FdtNode::reg`, handing out each region's start address and
/// size. `Fdt::memory` and `Memory::regions` are these two calls with
/// `expect` and `unwrap` in place of the `None`s. The result is named by
/// `fdt_node_regions`. The path must start with `/`: `Fdt::find_node` looks
/// a path it cannot find up among the aliases, and no property of a sound
/// tree is named with a leading `/`, so that lookup ends at once.
#[verifier::external_body]
pub(crate) fn node_regions(bytes: &[u8], path: &str) -> (regions: Option<Vec<AddressRange>>)
    requires
        device_tree_sound(bytes@),
        path@.len() > 0,
        path@[0] == '/',
    ensures
        regions_view(regions) == fdt_node_regions(bytes@, path.spec_bytes()),
{
    let fdt = Fdt::new(bytes).ok()?;
    let regions = fdt.find_node(path)?.reg()?;
    Some(regions.map(|region| AddressRange { base: region.starting_address.addr(), size: region.size }).collect())
}

/// Parses the tree with `fdt::Fdt::new`, reads the `#address-cells` of
/// `/cpus` with `fdt::node::FdtNode::cell_sizes` (the value that
/// `fdt::standard_nodes::Cpu::ids` reads), and lists the `reg` value of every
/// node that `fdt::Fdt::cpus` yields, with `Cpu::property`. `Fdt::cpus` is
/// called only once `find_node("/cpus")`, the lookup it makes itself with
/// `expect`, has found the node. The result is named by `fdt_cpu_regs`.
#[verifier::external_body]
pub(crate) fn cpu_regs(bytes: &[u8]) -> (cpus: Option<(usize, Vec<Option<Vec<u8>>>)>)
    requires
        device_tree_sound(bytes@),
    ensures
        cpu_regs_view(cpus) == fdt_cpu_regs(bytes@),
{
    let fdt = Fdt::new(bytes).ok()?;
    let cells = fdt.find_node("/cpus")?.cell_sizes().address_cells;
    let regs = fdt.cpus().map(|cpu| cpu.property("reg").map(|reg| reg.value.to_vec())).collect();
    Some((cells, regs))
}

/// Parses the tree with `fdt::Fdt::new`, finds the first compatible node with
/// `fdt::Fdt::find_compatible` and takes the first region of
/// `fdt::node::FdtNode::reg`. The result is named by `fdt_compatible_reg`.
#[verifier::external_body]
pub(crate) fn compatible_reg(bytes: &[u8], with: &[&str]) -> (reg: Option<Option<Option<AddressRange>>>)
    requires
        device_tree_sound(bytes@),
    ensures
        reg == fdt_compatible_reg(bytes@, texts_bytes(with@)),
{
    let fdt = Fdt::new(bytes).ok()?;
    let node = fdt.find_compatible(with)?;
    Some(node.reg().map(|mut regions| regions.next().map(
        |region| AddressRange { base: region.starting_address.addr(), size: region.size },
    )))
}

/// Parses the tree with `fdt::Fdt::new`, finds the first compatible node with
/// `fdt::Fdt::find_compatible` and takes the first interrupt of
/// `fdt::node::FdtNode::interrupts`. The result is named by
/// `fdt_compatible_interrupt`.
#[verifier::external_body]
pub(crate) fn compatible_interrupt(bytes: &[u8], with: &[&str]) -> (interrupt: Option<Option<Option<usize>>>)
    requires
        device_tree_sound(bytes@),
    ensures
        interrupt == fdt_compatible_interrupt(bytes@, texts_bytes(with@)),
{
    let fdt = Fdt::new(bytes).ok()?;
    let node = fdt.find_compatible(with)?;
    Some(node.interrupts().map(|mut interrupts| interrupts.next()))
}

/// Parses the tree with `fdt::Fdt::new`, finds the first compatible node with
/// `fdt::Fdt::find_compatible` and reads the value of its property `name`
/// with `fdt::node::FdtNode::property`. The result is named by
/// `fdt_compatible_property`.
#[verifier::external_body]
pub(crate) fn compatible_property(bytes: &[u8], with: &[&str], name: &str) -> (value: Option<Option<Vec<u8>>>)
    requires
        device_tree_sound(bytes@),
    ensures
        property_view(value) == fdt_compatible_property(bytes@, texts_bytes(with@), name.spec_bytes()),
{
    let fdt = Fdt::new(bytes).ok()?;
    let node = fdt.find_compatible(with)?;
    Some(node.property(name).map(|property| property.value.to_vec()))
}

/// Parses the tree with `fdt::Fdt::new` and, for every node of
/// `fdt::Fdt::all_nodes`, lists the strings of `fdt::node::FdtNode::compatible`
/// with `fdt::standard_nodes::Compatible::all`. The result is named by
/// `fdt_compatible_lists`.
#[verifier::external_body]
pub(crate) fn compatible_lists(bytes: &[u8]) -> (lists: Vec<Option<Vec<Vec<u8>>>>)
    requires
        device_tree_sound(bytes@),
    ensures
        lists_view(lists@) == fdt_compatible_lists(bytes@),
{
    match Fdt::new(bytes) {
        Ok(fdt) => fdt.all_nodes().map(
            |node| node.compatible().map(|names| names.all().map(|name| name.as_bytes().to_vec()).collect()),
        ).collect(),
        Err(_) => Vec::new(),
    }
}

} // verus!
