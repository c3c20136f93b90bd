use riscvrust::boot::{get, initialize, AlreadyInitialized, BootInfo, BootRecord};

#[test]
fn preserves_firmware_values_once() {
    let expected = BootInfo::new(3, 0x87e0_0000);
    let mut record = BootRecord::new();

    assert_eq!(initialize(&mut record, expected), Ok(()));
    assert_eq!(get(&record), Some(expected));
    assert_eq!(initialize(&mut record, expected), Err(AlreadyInitialized));
}

#[test]
fn nothing_is_preserved_before_initialization() {
    let record = BootRecord::new();
    assert_eq!(get(&record), None);
}

#[test]
fn a_second_initialization_keeps_the_first_values() {
    let first = BootInfo::new(0, 0x8220_0000);
    let second = BootInfo::new(5, 0x9000_0000);
    let mut record = BootRecord::new();

    assert_eq!(initialize(&mut record, first), Ok(()));
    assert_eq!(initialize(&mut record, second), Err(AlreadyInitialized));
    assert_eq!(get(&record), Some(first));
}

#[test]
fn boot_info_returns_both_registers() {
    let info = BootInfo::new(7, 0x87e0_0000);
    assert_eq!(info.hart_id(), 7);
    assert_eq!(info.device_tree_address(), 0x87e0_0000);
}
