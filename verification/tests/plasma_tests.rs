use plasma::plasma::make565;
use plasma::plasma::Plasma;

#[test]
fn sine_table_values() {
    let p = Plasma::new();
    // sin(0) == 0 in fixed point
    assert_eq!(p.sin(0), 0);
    // angle 64 is a quarter period: sin == one fixed-point unit
    assert_eq!(p.sin(64 << 8), 65536);
    // angle 128 is half a period: sin == 0
    assert_eq!(p.sin(128 << 8), 0);
    // angle 192 is three quarters: sin == -1 in fixed point
    assert_eq!(p.sin(192 << 8), -65536);
    // cos(0) == 1 in fixed point via the quarter-period shift
    assert_eq!(p.cos(0), 65536);
    // a fractional angle truncates down to its table step
    assert_eq!(p.sin(5 << 8), 8022);
    assert_eq!(p.sin((5 << 8) + 17), 8022);
}

#[test]
fn angle_sine_symmetry_samples() {
    let p = Plasma::new();
    for i in [1i64, 2, 5, 64, 127, 128, 129, 200, 255, 256, 1000, 4096] {
        assert_eq!(p.angle_sin(i), -p.angle_sin(-i));
    }
    assert_eq!(p.angle_sin(0), 0);
    assert_eq!(p.angle_sin(251), -8022);
}

#[test]
fn palette_generation_is_deterministic() {
    let a = Plasma::init_palette(256);
    let b = Plasma::init_palette(256);
    assert_eq!(a, b);
    let p1 = Plasma::new();
    let p2 = Plasma::new();
    assert_eq!(p1.palette, p2.palette);
    assert_eq!(p1.angle_sin_tab, p2.angle_sin_tab);
}

#[test]
fn palette_anchor_colors() {
    let pal = Plasma::init_palette(256);
    assert_eq!(pal.len(), 256);
    // quadrant boundaries of the cyclic ramp
    assert_eq!(pal[0], 0xf81f);
    assert_eq!(pal[64], 0xffe0);
    assert_eq!(pal[128], 0x07ff);
    assert_eq!(pal[192], 0x001f);
    // the ramp formula at the last entry circles back toward the start
    assert_eq!(pal[255], 0xf81f);
    // interior ramp samples
    assert_eq!(pal[3], 0xf85e);
    assert_eq!(pal[6], 0xf8bd);
    assert_eq!(pal[10], 0xf93b);
}

#[test]
fn make565_packs_and_truncates() {
    assert_eq!(make565(255, 0, 255), 0xf81f);
    assert_eq!(make565(255, 255, 0), 0xffe0);
    assert_eq!(make565(0, 0, 0), 0x0000);
    assert_eq!(make565(255, 255, 255), 0xffff);
    // truncating, not rounding: the low bits of each component drop out
    assert_eq!(make565(7, 7, 7), 0x0020);
    assert_eq!(make565(8, 4, 8), 0x0821);
}

#[test]
fn palette_index_saturates() {
    let p = Plasma::new();
    assert_eq!(p.palette_index(0), 0);
    assert_eq!(p.palette_index(255), 0);
    assert_eq!(p.palette_index(256), 1);
    assert_eq!(p.palette_index(65535), 255);
    // one fixed-point unit and anything beyond clamps to the last entry
    assert_eq!(p.palette_index(65536), 255);
    assert_eq!(p.palette_index(i64::MAX), 255);
    // negative fields index by absolute value, with the same clamp
    assert_eq!(p.palette_index(-1), 0);
    assert_eq!(p.palette_index(-65535), 255);
    assert_eq!(p.palette_index(i64::MIN), 255);
}
