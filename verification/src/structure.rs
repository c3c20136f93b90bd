//! The layout of a flattened device tree that the `fdt` crate walks to the
//! end without stopping on an `expect`, an `unwrap`, an `assert` or an
//! out-of-range slice, and without resolving aliases forever.
//!
//! A tree is sound when its header passes the checks of `Fdt::new`, its
//! structure and strings blocks lie inside the bytes, and the structure block
//! is one well-nested root node followed by the end token, where:
//! - every node name is NUL-terminated inside the block and valid UTF-8;
//! - every property comes before the node's children, its value lies inside
//!   the block, and its name is a NUL-terminated UTF-8 string of the strings
//!   block that does not start with `/` (a name starting with `/` could make
//!   the parser's alias lookup of a missing `/memory` or `/cpus` loop);
//! - an `#address-cells` or `#size-cells` value shorter than four bytes
//!   stands only in a node whose cell sizes are never read: one with no child
//!   node, and no `cpus` node under the root;
//! - no node lies deeper than 63 levels, counting the root as the first;
//! - `FDT_NOP` tokens stand only where every walk of the parser skips them:
//!   before the root node, right before a node's end, and before the end
//!   token.

use vstd::prelude::*;
use vstd::utf8::valid_utf8;
use vstd::slice::slice_subrange;
use crate::device_tree::{be_u32_at, header_check, DeviceTreeError};

verus! {

/// Token that opens a node.
pub const FDT_BEGIN_NODE: u32 = 1;

/// Token that closes a node.
pub const FDT_END_NODE: u32 = 2;

/// Token that introduces a property.
pub const FDT_PROP: u32 = 3;

/// Token that stands for nothing.
pub const FDT_NOP: u32 = 4;

/// Token that ends the structure block.
pub const FDT_END: u32 = 9;

/// The deepest level a node may lie at, the root being at level 1.
pub const MAX_DEPTH: usize = 63;

/// The property name `#address-cells`.
pub const ADDRESS_CELLS_NAME: [u8; 14] = [35, 97, 100, 100, 114, 101, 115, 115, 45, 99, 101, 108, 108, 115];

/// The property name `#size-cells`.
pub const SIZE_CELLS_NAME: [u8; 11] = [35, 115, 105, 122, 101, 45, 99, 101, 108, 108, 115];

/// The node name `cpus`.
pub const CPUS_NAME: [u8; 4] = [99, 112, 117, 115];

/// Offset of the structure block, from the header.
pub open spec fn struct_offset(bytes: Seq<u8>) -> int {
    be_u32_at(bytes, 8)
}

/// Offset of the strings block, from the header.
pub open spec fn strings_offset(bytes: Seq<u8>) -> int {
    be_u32_at(bytes, 12)
}

/// Size of the strings block, from the header.
pub open spec fn strings_size(bytes: Seq<u8>) -> int {
    be_u32_at(bytes, 32)
}

/// Size of the structure block, from the header.
pub open spec fn struct_size(bytes: Seq<u8>) -> int {
    be_u32_at(bytes, 36)
}

/// The position of the first NUL at or after `start` and before `limit`.
pub open spec fn nul_at(bytes: Seq<u8>, start: int, limit: int) -> Option<int>
    decreases limit - start,
{
    if start < 0 || start >= limit || limit > bytes.len() {
        None
    } else if bytes[start] == 0 {
        Some(start)
    } else {
        nul_at(bytes, start + 1, limit)
    }
}

/// A NUL found from `start` lies at or after it and before the limit.
pub proof fn lemma_nul_at_bounds(bytes: Seq<u8>, start: int, limit: int)
    ensures
        nul_at(bytes, start, limit) matches Some(nul) ==> start <= nul < limit,
    decreases limit - start,
{
    if !(start < 0 || start >= limit || limit > bytes.len()) && bytes[start] != 0 {
        lemma_nul_at_bounds(bytes, start + 1, limit);
    }
}

/// `length` rounded up to a multiple of four.
pub open spec fn padded(length: int) -> int {
    (length + 3) / 4 * 4
}

/// Whether the text from `start` to `end` is `#address-cells` or `#size-cells`.
pub open spec fn is_cell_size_name(bytes: Seq<u8>, start: int, end: int) -> bool {
    bytes.subrange(start, end) == ADDRESS_CELLS_NAME@ || bytes.subrange(start, end)
        == SIZE_CELLS_NAME@
}

/// Whether the node name from `start` to `end` is `cpus`, with or without a
/// unit address after `@`.
pub open spec fn is_cpus_name(bytes: Seq<u8>, start: int, end: int) -> bool {
    &&& end - start >= 4
    &&& bytes.subrange(start, start + 4) == CPUS_NAME@
    &&& (end - start == 4 || bytes[start + 4] == 64)
}

/// Where a walk of the structure block stands: inside a node at `depth`
/// (0 outside the root); whether that node has had a child node
/// (`had_child`), holds a short cell-size value (`short_cells`) and is a
/// `cpus` node under the root (`in_cpus`); whether `FDT_NOP` tokens were just
/// passed (`after_nop`); and whether the root has closed (`closed`).
#[derive(Clone, Copy, PartialEq, Eq, Structural)]
pub struct ScanState {
    pub depth: usize,
    pub had_child: bool,
    pub short_cells: bool,
    pub in_cpus: bool,
    pub after_nop: bool,
    pub closed: bool,
}

/// The state before the root node.
pub open spec fn start_state() -> ScanState {
    ScanState {
        depth: 0,
        had_child: false,
        short_cells: false,
        in_cpus: false,
        after_nop: false,
        closed: false,
    }
}

/// The state after a node's end token.
pub open spec fn after_end(state: ScanState) -> ScanState {
    if state.depth == 1 {
        ScanState {
            depth: 0,
            had_child: true,
            short_cells: false,
            in_cpus: false,
            after_nop: false,
            closed: true,
        }
    } else {
        ScanState {
            depth: (state.depth - 1) as usize,
            had_child: true,
            short_cells: false,
            in_cpus: false,
            after_nop: false,
            closed: false,
        }
    }
}

/// Whether the structure block from `pos` to `end` continues soundly from
/// `state`; the strings block spans `strings..strings_end`.
pub open spec fn tokens_sound(
    bytes: Seq<u8>,
    pos: int,
    end: int,
    strings: int,
    strings_end: int,
    state: ScanState,
) -> bool
    decreases end - pos,
{
    if pos < 0 || pos + 4 > end || end > bytes.len() {
        false
    } else {
        let token = be_u32_at(bytes, pos);
        if token == FDT_NOP {
            tokens_sound(bytes, pos + 4, end, strings, strings_end, ScanState { after_nop: true, ..state })
        } else if token == FDT_END {
            state.closed
        } else if state.closed {
            false
        } else if token == FDT_BEGIN_NODE {
            &&& !(state.after_nop && state.depth != 0)
            &&& state.depth < MAX_DEPTH
            &&& !(state.depth >= 1 && state.short_cells)
            &&& match nul_at(bytes, pos + 4, end) {
                Some(nul) => {
                    proof {
                        lemma_nul_at_bounds(bytes, pos + 4, end);
                    }
                    let next = pos + 4 + padded(nul - (pos + 4) + 1);
                    &&& valid_utf8(bytes.subrange(pos + 4, nul))
                    &&& next <= end
                    &&& tokens_sound(
                        bytes,
                        next,
                        end,
                        strings,
                        strings_end,
                        ScanState {
                            depth: (state.depth + 1) as usize,
                            had_child: false,
                            short_cells: false,
                            in_cpus: state.depth == 1 && is_cpus_name(bytes, pos + 4, nul),
                            after_nop: false,
                            closed: false,
                        },
                    )
                },
                None => false,
            }
        } else if token == FDT_PROP {
            &&& !state.after_nop
            &&& state.depth >= 1
            &&& !state.had_child
            &&& pos + 12 <= end
            &&& {
                let length = be_u32_at(bytes, pos + 4);
                let name = strings + be_u32_at(bytes, pos + 8);
                &&& pos + 12 + length <= end
                &&& match nul_at(bytes, name, strings_end) {
                    Some(nul) => {
                        let next = pos + 12 + padded(length);
                        &&& valid_utf8(bytes.subrange(name, nul))
                        &&& !(nul > name && bytes[name] == 47)
                        &&& next <= end
                        &&& tokens_sound(
                            bytes,
                            next,
                            end,
                            strings,
                            strings_end,
                            ScanState {
                                short_cells: state.short_cells || (is_cell_size_name(bytes, name, nul)
                                    && length < 4),
                                after_nop: false,
                                ..state
                            },
                        )
                    },
                    None => false,
                }
            }
        } else if token == FDT_END_NODE {
            &&& state.depth >= 1
            &&& !(state.in_cpus && state.short_cells)
            &&& tokens_sound(bytes, pos + 4, end, strings, strings_end, after_end(state))
        } else {
            false
        }
    }
}

/// Whether `bytes` is a sound flattened device tree.
pub open spec fn device_tree_sound(bytes: Seq<u8>) -> bool {
    &&& header_check(bytes) is Ok
    &&& struct_offset(bytes) + struct_size(bytes) <= bytes.len()
    &&& strings_offset(bytes) + strings_size(bytes) <= bytes.len()
    &&& tokens_sound(
        bytes,
        struct_offset(bytes),
        struct_offset(bytes) + struct_size(bytes),
        strings_offset(bytes),
        strings_offset(bytes) + strings_size(bytes),
        start_state(),
    )
}

/// Reads the big-endian `u32` at `offset`.
pub fn read_be_u32(bytes: &[u8], offset: usize) -> (word: u32)
    requires
        offset + 4 <= bytes@.len(),
    ensures
        word == be_u32_at(bytes@, offset as int),
{
    bytes[offset] as u32 * 0x100_0000 + bytes[offset + 1] as u32 * 0x1_0000 + bytes[offset + 2]
        as u32 * 0x100 + bytes[offset + 3] as u32
}

/// Calls `std::str::from_utf8`, which succeeds exactly when `bytes` is valid
/// UTF-8, and reports whether it succeeded.
#[verifier::external_body]
fn is_utf8(bytes: &[u8]) -> (valid: bool)
    ensures
        valid == valid_utf8(bytes@),
{
    std::str::from_utf8(bytes).is_ok()
}

/// Finds the first NUL at or after `start` and before `limit`.
fn find_nul(bytes: &[u8], start: usize, limit: usize) -> (nul: Option<usize>)
    requires
        limit <= bytes@.len(),
    ensures
        match nul {
            Some(n) => nul_at(bytes@, start as int, limit as int) == Some(n as int) && start <= n
                < limit,
            None => nul_at(bytes@, start as int, limit as int) is None,
        },
{
    let mut i = start;
    while i < limit
        invariant
            start <= i,
            limit <= bytes@.len(),
            nul_at(bytes@, start as int, limit as int) == nul_at(bytes@, i as int, limit as int),
        decreases limit - i,
    {
        proof {
            lemma_nul_at_bounds(bytes@, start as int, limit as int);
        }
        if bytes[i] == 0 {
            return Some(i);
        }
        i = i + 1;
    }
    None
}

/// Whether the text from `start` to `end` equals `text`.
fn text_equals(bytes: &[u8], start: usize, end: usize, text: &[u8]) -> (equal: bool)
    requires
        start <= end <= bytes@.len(),
    ensures
        equal == (bytes@.subrange(start as int, end as int) == text@),
{
    if end - start != text.len() {
        return false;
    }
    let mut k: usize = 0;
    while k < text.len()
        invariant
            start + text@.len() == end,
            end <= bytes@.len(),
            k <= text@.len(),
            forall|j: int| 0 <= j < k ==> bytes@[start + j] == text@[j],
        decreases text@.len() - k,
    {
        if bytes[start + k] != text[k] {
            assert(bytes@.subrange(start as int, end as int)[k as int] != text@[k as int]);
            return false;
        }
        k = k + 1;
    }
    assert(bytes@.subrange(start as int, end as int) =~= text@);
    true
}

/// Whether the node name from `start` to `end` is `cpus`, with or without a
/// unit address.
fn names_cpus(bytes: &[u8], start: usize, end: usize) -> (cpus: bool)
    requires
        start <= end <= bytes@.len(),
    ensures
        cpus == is_cpus_name(bytes@, start as int, end as int),
{
    if end - start < 4 {
        return false;
    }
    text_equals(bytes, start, start + 4, CPUS_NAME.as_slice()) && (end - start == 4 || bytes[start
        + 4] == 64)
}

/// Checks the structure block from `start` to `end` against the strings
/// block from `strings` to `strings_end`.
fn check_tokens(bytes: &[u8], start: usize, end: usize, strings: usize, strings_end: usize) -> (sound: bool)
    requires
        end <= bytes@.len(),
        strings_end <= bytes@.len(),
    ensures
        sound == tokens_sound(
            bytes@,
            start as int,
            end as int,
            strings as int,
            strings_end as int,
            start_state(),
        ),
{
    let mut pos = start;
    let mut state = ScanState {
        depth: 0,
        had_child: false,
        short_cells: false,
        in_cpus: false,
        after_nop: false,
        closed: false,
    };
    loop
        invariant
            end <= bytes@.len(),
            strings_end <= bytes@.len(),
            state.depth <= MAX_DEPTH,
            tokens_sound(bytes@, start as int, end as int, strings as int, strings_end as int, start_state())
                == tokens_sound(
                bytes@,
                pos as int,
                end as int,
                strings as int,
                strings_end as int,
                state,
            ),
        decreases end - pos,
    {
        if pos > end || end - pos < 4 {
            return false;
        }
        let token = read_be_u32(bytes, pos);
        if token == FDT_NOP {
            pos = pos + 4;
            state = ScanState { after_nop: true, ..state };
        } else if token == FDT_END {
            return state.closed;
        } else if state.closed {
            return false;
        } else if token == FDT_BEGIN_NODE {
            if (state.after_nop && state.depth != 0) || state.depth >= MAX_DEPTH || (state.depth >= 1
                && state.short_cells) {
                return false;
            }
            match find_nul(bytes, pos + 4, end) {
                None => {
                    return false;
                },
                Some(nul) => {
                    if !is_utf8(slice_subrange(bytes, pos + 4, nul)) {
                        return false;
                    }
                    let full = nul - (pos + 4) + 1;
                    let padding = (full + 3) / 4 * 4;
                    if padding > end - (pos + 4) {
                        return false;
                    }
                    let in_cpus = state.depth == 1 && names_cpus(bytes, pos + 4, nul);
                    pos = pos + 4 + padding;
                    state = ScanState {
                        depth: state.depth + 1,
                        had_child: false,
                        short_cells: false,
                        in_cpus,
                        after_nop: false,
                        closed: false,
                    };
                },
            }
        } else if token == FDT_PROP {
            if state.after_nop || state.depth < 1 || state.had_child || end - pos < 12 {
                return false;
            }
            let length = read_be_u32(bytes, pos + 4) as usize;
            let name_offset = read_be_u32(bytes, pos + 8) as usize;
            if length > end - (pos + 12) {
                return false;
            }
            if name_offset > strings_end || strings > strings_end - name_offset {
                return false;
            }
            let name = strings + name_offset;
            match find_nul(bytes, name, strings_end) {
                None => {
                    return false;
                },
                Some(nul) => {
                    if !is_utf8(slice_subrange(bytes, name, nul)) {
                        return false;
                    }
                    if nul > name && bytes[name] == 47 {
                        return false;
                    }
                    let cell_size = text_equals(bytes, name, nul, ADDRESS_CELLS_NAME.as_slice())
                        || text_equals(bytes, name, nul, SIZE_CELLS_NAME.as_slice());
                    let padding = (length + 3) / 4 * 4;
                    if padding > end - (pos + 12) {
                        return false;
                    }
                    pos = pos + 12 + padding;
                    state = ScanState {
                        short_cells: state.short_cells || (cell_size && length < 4),
                        after_nop: false,
                        ..state
                    };
                },
            }
        } else if token == FDT_END_NODE {
            if state.depth < 1 || (state.in_cpus && state.short_cells) {
                return false;
            }
            pos = pos + 4;
            state = if state.depth == 1 {
                ScanState {
                    depth: 0,
                    had_child: true,
                    short_cells: false,
                    in_cpus: false,
                    after_nop: false,
                    closed: true,
                }
            } else {
                ScanState {
                    depth: state.depth - 1,
                    had_child: true,
                    short_cells: false,
                    in_cpus: false,
                    after_nop: false,
                    closed: false,
                }
            };
        } else {
            return false;
        }
    }
}

/// Checks whether `bytes` is a sound flattened device tree.
pub fn check_device_tree(bytes: &[u8]) -> (sound: bool)
    ensures
        sound == device_tree_sound(bytes@),
{
    if bytes.len() < 40 {
        return false;
    }
    let magic = read_be_u32(bytes, 0);
    let total = read_be_u32(bytes, 4) as usize;
    if magic != 0xd00d_feed || bytes.len() < total {
        return false;
    }
    let structure = read_be_u32(bytes, 8) as usize;
    let strings = read_be_u32(bytes, 12) as usize;
    let strings_length = read_be_u32(bytes, 32) as usize;
    let structure_length = read_be_u32(bytes, 36) as usize;
    if structure > bytes.len() || structure_length > bytes.len() - structure {
        return false;
    }
    if strings > bytes.len() || strings_length > bytes.len() - strings {
        return false;
    }
    check_tokens(bytes, structure, structure + structure_length, strings, strings + strings_length)
}

} // verus!
