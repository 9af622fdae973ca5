use rawr::renderer::Color;

#[test]
fn new_stores_channels() {
    let c = Color::new(10, 20, 30);
    assert_eq!(c.r, 10);
    assert_eq!(c.g, 20);
    assert_eq!(c.b, 30);
}

#[test]
fn as_u32_packs_channels() {
    assert_eq!(Color::new(0x12, 0x34, 0x56).as_u32(), 0x0012_3456);
    assert_eq!(Color::new(0, 0, 0).as_u32(), 0);
    assert_eq!(Color::new(0xFF, 0xFF, 0xFF).as_u32(), 0x00FF_FFFF);
}

#[test]
fn from_u32_unpacks_channels() {
    let c = Color::from_u32(0x0012_3456);
    assert_eq!((c.r, c.g, c.b), (0x12, 0x34, 0x56));
    // bits 24..32 are ignored
    let c = Color::from_u32(0xAB12_3456);
    assert_eq!((c.r, c.g, c.b), (0x12, 0x34, 0x56));
}

#[test]
fn pack_round_trip() {
    for &(r, g, b) in &[(0u8, 0u8, 0u8), (1, 2, 3), (255, 0, 128), (255, 255, 255)] {
        let c = Color::new(r, g, b);
        assert_eq!(Color::from_u32(c.as_u32()), c);
    }
}

#[test]
fn random_color_packs_into_low_bytes() {
    for _ in 0..16 {
        let c = Color::random();
        assert!(c.as_u32() <= 0x00FF_FFFF);
    }
}
