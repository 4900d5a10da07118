use micro_jam_engine::color::{channels, pack};

#[test]
fn pack_puts_red_high_and_blue_low() {
    assert_eq!(pack(0xFF, 0, 0), 0xFF0000);
    assert_eq!(pack(0, 0xFF, 0), 0x00FF00);
    assert_eq!(pack(0, 0, 0xFF), 0x0000FF);
    assert_eq!(pack(0x12, 0x34, 0x56), 0x123456);
    assert_eq!(pack(0, 0, 0), 0);
    assert_eq!(pack(255, 255, 255), 0xFFFFFF);
}

#[test]
fn pack_does_not_mask() {
    assert_eq!(pack(0x100, 0, 0), 0x0100_0000);
    assert_eq!(pack(0, 0x100, 0), 0x01_0000);
    assert_eq!(pack(0, 0, 0x100), 0x100);
    assert_eq!(pack(0, 0, u32::MAX), u32::MAX);
    assert_eq!(pack(u32::MAX, 0, 0), 0xFFFF_0000);
}

#[test]
fn channels_split_a_color() {
    assert_eq!(channels(0x123456), (0x12, 0x34, 0x56));
    assert_eq!(channels(0xFF0000), (255, 0, 0));
    assert_eq!(channels(0), (0, 0, 0));
    // The high byte is no channel.
    assert_eq!(channels(0xAB123456), (0x12, 0x34, 0x56));
    assert_eq!(channels(u32::MAX), (255, 255, 255));
}

#[test]
fn pack_and_channels_undo_each_other() {
    for color in [0u32, 1, 0xFF, 0x100, 0xABCDEF, 0xFFFFFF, 0x808080] {
        let (r, g, b) = channels(color);
        assert_eq!(pack(r, g, b), color);
    }
    for (r, g, b) in [(0u32, 0u32, 0u32), (255, 255, 255), (1, 2, 3), (200, 100, 50)] {
        assert_eq!(channels(pack(r, g, b)), (r, g, b));
    }
}
