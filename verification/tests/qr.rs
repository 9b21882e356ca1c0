use escpos_emulator::escpos::qr::{ec_level_from_byte, pack_modules, render_qr, EcLevel};

#[test]
fn renders_simple_payload() {
    let (wb, h, data) = render_qr(b"hello", 3, EcLevel::M).unwrap();
    // Version 1 QR (smallest) is 21x21 modules. With module_size=3 ⇒ 63 px.
    // Padded width_bytes = ceil(63/8) = 8 ⇒ 64 px logical.
    assert_eq!(wb, 8);
    assert_eq!(h, 63);
    assert_eq!(data.len(), wb as usize * h as usize);
}

#[test]
fn module_size_scales_output() {
    let (_, h1, _) = render_qr(b"x", 1, EcLevel::L).unwrap();
    let (_, h4, _) = render_qr(b"x", 4, EcLevel::L).unwrap();
    assert_eq!(h4, h1 * 4);
}

#[test]
fn module_size_zero_is_treated_as_one() {
    let (_, h0, _) = render_qr(b"x", 0, EcLevel::L).unwrap();
    let (_, h1, _) = render_qr(b"x", 1, EcLevel::L).unwrap();
    assert_eq!(h0, h1);
}

#[test]
fn ec_level_byte_mapping() {
    assert!(matches!(ec_level_from_byte(48), EcLevel::L));
    assert!(matches!(ec_level_from_byte(49), EcLevel::M));
    assert!(matches!(ec_level_from_byte(50), EcLevel::Q));
    assert!(matches!(ec_level_from_byte(51), EcLevel::H));
    assert!(matches!(ec_level_from_byte(99), EcLevel::M));
}

#[test]
fn has_dark_pixels() {
    let (_, _, data) = render_qr(b"https://example.com", 3, EcLevel::M).unwrap();
    let dark_count: usize = data.iter().map(|b| b.count_ones() as usize).sum();
    assert!(dark_count > 0, "rendered QR should contain dark pixels");
}

#[test]
fn zero_module_size_draws_the_same_bitmap_as_one() {
    let zero = render_qr(b"abc", 0, EcLevel::Q).unwrap();
    let one = render_qr(b"abc", 1, EcLevel::Q).unwrap();
    assert_eq!(zero, one);
}

#[test]
fn finder_pattern_corner_is_dark() {
    // Every QR symbol has a dark finder-pattern corner at module (0, 0).
    let (_, _, data) = render_qr(b"hello", 1, EcLevel::M).unwrap();
    assert_eq!(data[0] & 0x80, 0x80);
}

#[test]
fn data_too_long_is_none() {
    let data = vec![0xABu8; 4000];
    assert!(render_qr(&data, 3, EcLevel::H).is_none());
}

#[test]
fn pack_modules_checkerboard() {
    // 3x3 modules: dark where (x + y) is even.
    let modules: Vec<bool> = (0..9).map(|i| (i % 3 + i / 3) % 2 == 0).collect();
    let (wb, h, data) = pack_modules(3, &modules, 1);
    assert_eq!((wb, h), (1, 3));
    assert_eq!(data, vec![0b1010_0000, 0b0100_0000, 0b1010_0000]);
}

#[test]
fn pack_modules_scales_each_module() {
    // 2x2 modules, dark on the diagonal, 5 dots a module: 10x10 pixels, 2 bytes a row.
    let modules = vec![true, false, false, true];
    let (wb, h, data) = pack_modules(2, &modules, 5);
    assert_eq!((wb, h), (2, 10));
    assert_eq!(data.len(), 20);
    for row in 0..5 {
        assert_eq!(&data[row * 2..row * 2 + 2], &[0b1111_1000, 0b0000_0000]);
    }
    for row in 5..10 {
        assert_eq!(&data[row * 2..row * 2 + 2], &[0b0000_0111, 0b1100_0000]);
    }
}

#[test]
fn pack_modules_zero_module_size_is_one() {
    let modules = vec![true];
    assert_eq!(pack_modules(1, &modules, 0), (1, 1, vec![0x80]));
}
