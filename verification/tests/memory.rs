use riscvrust::memory::{kernel_layout, Region};

#[test]
fn region_uses_half_open_bounds() {
    let region = Region::new(0x1000, 0x1800);

    assert_eq!(region.start(), 0x1000);
    assert_eq!(region.end(), 0x1800);
    assert_eq!(region.size(), 0x800);
}

#[test]
fn empty_region_has_no_size() {
    let region = Region::new(0x8020_0000, 0x8020_0000);
    assert_eq!(region.size(), 0);
}

#[test]
fn layout_keeps_each_section() {
    let layout = kernel_layout(
        (0x8020_0000, 0x8020_9000),
        (0x8020_0000, 0x8020_2d4e),
        (0x8020_3000, 0x8020_4000),
        (0x8020_4000, 0x8020_5000),
        (0x8020_5000, 0x8020_6000),
        (0x8020_6000, 0x8020_9000),
    );

    assert_eq!(layout.kernel, Region::new(0x8020_0000, 0x8020_9000));
    assert_eq!(layout.kernel.size(), 36864);
    assert_eq!(layout.text.size(), 11598);
    assert_eq!(layout.read_only_data.start(), 0x8020_3000);
    assert_eq!(layout.data.end(), 0x8020_5000);
    assert_eq!(layout.bss, Region::new(0x8020_5000, 0x8020_6000));
    assert_eq!(layout.boot_stack.size(), 0x3000);
}
