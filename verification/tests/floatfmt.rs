use pulse_tui::floatfmt::f32_fixed_string;

fn check(bits: u32, p: u32) {
    let expected = format!("{:.*}", p as usize, f32::from_bits(bits));
    assert_eq!(f32_fixed_string(bits, p), expected, "bits {bits:#010x} precision {p}");
}

#[test]
fn fixed_text_matches_std_on_special_values() {
    for bits in [
        0u32,
        0x8000_0000,
        0x3f80_0000,
        0xbf80_0000,
        0x7f80_0000,
        0xff80_0000,
        0x7fc0_0000,
        0x7f7f_ffff,
        0xff7f_ffff,
        0x0000_0001,
        0x8000_0001,
        0x0080_0000,
        0x3c00_0000, // 2^-7: a tie at six decimals
        0x3c80_0000, // 2^-6
        0x3e80_0000, // 0.25: a tie at one decimal
        0x3f20_0000, // 0.625
        0x4b80_0000,
    ] {
        for p in [0u32, 1, 2, 4, 6, 9] {
            check(bits, p);
        }
    }
}

#[test]
fn fixed_text_matches_std_on_many_values() {
    let mut x: u32 = 0x1234_5678;
    for _ in 0..40_000 {
        x = x.wrapping_mul(1_664_525).wrapping_add(1_013_904_223);
        check(x, 6);
        check(x, 4);
        check(x & 0x83ff_ffff | 0x3c00_0000, 6);
    }
}

#[test]
fn fixed_text_of_one() {
    assert_eq!(f32_fixed_string(0x3f80_0000, 6), "1.000000");
    assert_eq!(f32_fixed_string(0xc0490fdb, 4), "-3.1416");
}

fn check64(bits: u64, p: u32) {
    let expected = format!("{:.*}", p as usize, f64::from_bits(bits));
    assert_eq!(pulse_tui::floatfmt::f64_fixed_string(bits, p), expected, "bits {bits:#018x} precision {p}");
}

#[test]
fn double_text_matches_std_on_special_values() {
    for bits in [
        0u64,
        0x8000_0000_0000_0000,
        0x3ff0_0000_0000_0000,
        0xbff0_0000_0000_0000,
        0x7ff0_0000_0000_0000,
        0xfff0_0000_0000_0000,
        0x7ff8_0000_0000_0000,
        0x7fef_ffff_ffff_ffff,
        0xffef_ffff_ffff_ffff,
        0x0000_0000_0000_0001,
        0x0010_0000_0000_0000,
        0x4340_0000_0000_0000,
        0x44b5_2d02_c7e1_4af6,
        0x3f50_0000_0000_0000,
        0x3fd0_0000_0000_0000,
    ] {
        for p in [0u32, 1, 2, 6, 9] {
            check64(bits, p);
        }
    }
}

#[test]
fn double_text_matches_std_on_many_values() {
    let mut x: u64 = 0x0123_4567_89ab_cdef;
    for _ in 0..20_000 {
        x = x.wrapping_mul(6_364_136_223_846_793_005).wrapping_add(1_442_695_040_888_963_407);
        check64(x, 6);
        check64(x & 0x80ff_ffff_ffff_ffff | 0x3f00_0000_0000_0000, 6);
        check64(x & 0x800f_ffff_ffff_ffff | 0x4400_0000_0000_0000, 4);
    }
}
