//! Boot information supplied by the platform firmware.
//!
//! OpenSBI enters the kernel with the boot hart's ID in `a0` and the address
//! of the flattened device tree in `a1`. A [`BootRecord`] preserves both
//! values once, for the rest of kernel initialization.

use vstd::prelude::*;

verus! {

/// Values placed in `a0` and `a1` by OpenSBI before entering the kernel.
#[derive(Clone, Copy, Debug, PartialEq, Eq, Structural)]
pub struct BootInfo {
    hart_id: usize,
    device_tree_address: usize,
}

impl BootInfo {
    /// The ID of the boot hart.
    pub closed spec fn boot_hart(self) -> usize {
        self.hart_id
    }

    /// The physical address of the flattened device tree.
    pub closed spec fn device_tree(self) -> usize {
        self.device_tree_address
    }

    /// Creates boot information from the firmware-provided register values.
    pub fn new(hart_id: usize, device_tree_address: usize) -> (info: Self)
        ensures
            info.boot_hart() == hart_id,
            info.device_tree() == device_tree_address,
    {
        BootInfo { hart_id, device_tree_address }
    }

    /// Returns the ID of the hart selected by the firmware to boot the kernel.
    pub fn hart_id(self) -> (hart_id: usize)
        ensures
            hart_id == self.boot_hart(),
    {
        self.hart_id
    }

    /// Returns the physical address of the flattened device tree.
    pub fn device_tree_address(self) -> (address: usize)
        ensures
            address == self.device_tree(),
    {
        self.device_tree_address
    }
}

/// Two pieces of boot information are the same exactly when both values are.
pub proof fn lemma_boot_info_equal(a: BootInfo, b: BootInfo)
    ensures
        a == b <==> (a.boot_hart() == b.boot_hart() && a.device_tree() == b.device_tree()),
{
}

/// Indicates that boot information was already being or had been initialized.
#[derive(Clone, Copy, Debug, PartialEq, Eq, Structural)]
pub struct AlreadyInitialized;

#[derive(Clone, Copy, Debug, PartialEq, Eq, Structural)]
enum BootState {
    Uninitialized,
    Initialized,
}

/// The preserved firmware values: empty until [`initialize`] publishes both
/// values together, and never changed afterwards.
#[derive(Debug)]
pub struct BootRecord {
    state: BootState,
    hart_id: usize,
    device_tree_address: usize,
}

impl View for BootRecord {
    type V = Option<BootInfo>;

    /// The published boot information, if any.
    closed spec fn view(&self) -> Option<BootInfo> {
        match self.state {
            BootState::Initialized => Some(
                BootInfo { hart_id: self.hart_id, device_tree_address: self.device_tree_address },
            ),
            BootState::Uninitialized => None,
        }
    }
}

impl BootRecord {
    /// Creates a record that holds no boot information yet.
    pub fn new() -> (record: Self)
        ensures
            record@ == None::<BootInfo>,
    {
        BootRecord { state: BootState::Uninitialized, hart_id: 0, device_tree_address: 0 }
    }
}

/// What [`initialize`] does to a record that holds `before`: the first call
/// publishes `info`; every later call is refused and changes nothing.
pub open spec fn initialize_outcome(before: Option<BootInfo>, info: BootInfo) -> (
    Option<BootInfo>,
    Result<(), AlreadyInitialized>,
) {
    match before {
        None => (Some(info), Ok(())),
        Some(_) => (before, Err(AlreadyInitialized)),
    }
}

/// Preserves the firmware values for use by later kernel initialization.
///
/// Both values are published together: a reader sees either no boot
/// information or all of it.
pub fn initialize(record: &mut BootRecord, info: BootInfo) -> (result: Result<(), AlreadyInitialized>)
    ensures
        (final(record)@, result) == initialize_outcome(old(record)@, info),
{
    match record.state {
        BootState::Uninitialized => {
            record.hart_id = info.hart_id();
            record.device_tree_address = info.device_tree_address();
            record.state = BootState::Initialized;
            Ok(())
        },
        BootState::Initialized => Err(AlreadyInitialized),
    }
}

/// What [`get`] returns of a record that holds `contents`: the published
/// boot information, if any.
pub open spec fn get_outcome(contents: Option<BootInfo>) -> Option<BootInfo> {
    contents
}

/// Returns the preserved boot information once initialization is complete.
pub fn get(record: &BootRecord) -> (info: Option<BootInfo>)
    ensures
        info == get_outcome(record@),
{
    match record.state {
        BootState::Initialized => Some(BootInfo::new(record.hart_id, record.device_tree_address)),
        BootState::Uninitialized => None,
    }
}

/// Reading back a write: once `initialize` has accepted `info` on an empty
/// record, `get` returns exactly `info`.
pub proof fn lemma_get_returns_initialized(info: BootInfo)
    ensures
        initialize_outcome(None, info).1 == Ok::<(), AlreadyInitialized>(()),
        get_outcome(initialize_outcome(None, info).0) == Some(info),
{
}

/// Before any initialization `get` finds nothing, and a refused
/// initialization leaves what `get` returns unchanged.
pub proof fn lemma_get_unchanged_by_refusal(before: Option<BootInfo>, info: BootInfo)
    ensures
        get_outcome(None) == None::<BootInfo>,
        initialize_outcome(before, info).1 is Err ==> get_outcome(initialize_outcome(before, info).0)
            == get_outcome(before),
{
}

/// `initialize` succeeds exactly when the record is still empty.
pub proof fn lemma_initialize_succeeds_iff_empty(before: Option<BootInfo>, info: BootInfo)
    ensures
        initialize_outcome(before, info).1 is Ok <==> before is None,
{
}

/// The firmware values are preserved once: after any first call, a second
/// call is refused and leaves the record as the first call left it, which is
/// either what it held before or the first call's information.
pub proof fn lemma_initialize_once(before: Option<BootInfo>, first: BootInfo, second: BootInfo)
    ensures
        ({
            let after_first = initialize_outcome(before, first).0;
            &&& after_first == before || after_first == Some(first)
            &&& after_first is Some
            &&& initialize_outcome(after_first, second) == (
                after_first,
                Err::<(), AlreadyInitialized>(AlreadyInitialized),
            )
        }),
{
}

} // verus!
