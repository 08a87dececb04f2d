use plasma::android_bitmap::AndroidBitmapInfo;
use plasma::android_bitmap::ANDROID_BITMAP_FORMAT_A_8;
use plasma::android_bitmap::ANDROID_BITMAP_FORMAT_RGB_565;
use plasma::frame_stats::Stats;
use plasma::plasma::Plasma;
use plasma::render::render_frame;
use plasma::render::RenderError;

fn info(width: u32, height: u32, stride: u32, format: i32) -> AndroidBitmapInfo {
    AndroidBitmapInfo { width, height, stride, format, flags: 0 }
}

// The fixed frame every run must reproduce: 4 x 2 pixels, 8-byte stride,
// time zero, low color byte first.
const GOLDEN_4X2_T0: [u8; 16] = [
    31, 248, 94, 248, 189, 248, 59, 249, 126, 248, 220, 248, 59, 249, 216, 249,
];

#[test]
fn golden_frame_time_zero() {
    let p = Plasma::new();
    let mut buf: Vec<u8> = vec![0; 16];
    let inf = info(4, 2, 8, ANDROID_BITMAP_FORMAT_RGB_565);
    p.fill_plasma(&inf, &mut buf, 0);
    assert_eq!(buf.as_slice(), &GOLDEN_4X2_T0);
}

#[test]
fn render_is_deterministic() {
    let p = Plasma::new();
    let inf = info(4, 2, 8, ANDROID_BITMAP_FORMAT_RGB_565);
    let mut a: Vec<u8> = vec![7; 16];
    let mut b: Vec<u8> = vec![7; 16];
    p.fill_plasma(&inf, &mut a, 424242);
    p.fill_plasma(&inf, &mut b, 424242);
    assert_eq!(a, b);
    // and a second engine built the same way renders the same frame
    let q = Plasma::new();
    let mut c: Vec<u8> = vec![7; 16];
    q.fill_plasma(&inf, &mut c, 424242);
    assert_eq!(a, c);
}

#[test]
fn render_respects_stride_padding() {
    let p = Plasma::new();
    // 4 bytes of padding per 8-byte row: rows advance by the stride
    let inf = info(4, 2, 12, ANDROID_BITMAP_FORMAT_RGB_565);
    let mut buf: Vec<u8> = vec![0xab; 24];
    p.fill_plasma(&inf, &mut buf, 0);
    let expected: [u8; 24] = [
        31, 248, 94, 248, 189, 248, 59, 249, 0xab, 0xab, 0xab, 0xab, 126, 248, 220, 248, 59, 249,
        216, 249, 0xab, 0xab, 0xab, 0xab,
    ];
    assert_eq!(buf.as_slice(), &expected);
}

#[test]
fn render_leaves_tail_bytes_alone() {
    let p = Plasma::new();
    let inf = info(4, 2, 8, ANDROID_BITMAP_FORMAT_RGB_565);
    // buffer larger than height * stride: the tail is untouched
    let mut buf: Vec<u8> = vec![0x5c; 20];
    p.fill_plasma(&inf, &mut buf, 0);
    assert_eq!(&buf[..16], &GOLDEN_4X2_T0);
    assert_eq!(&buf[16..], &[0x5c, 0x5c, 0x5c, 0x5c]);
}

#[test]
fn render_with_positive_time_seed() {
    let p = Plasma::new();
    let inf = info(2, 2, 4, ANDROID_BITMAP_FORMAT_RGB_565);
    let mut buf: Vec<u8> = vec![0; 8];
    p.fill_plasma(&inf, &mut buf, 123456789);
    assert_eq!(buf.as_slice(), &[31, 104, 31, 104, 31, 80, 31, 80]);
}

#[test]
fn render_with_negative_time_seed() {
    let p = Plasma::new();
    let inf = info(2, 2, 4, ANDROID_BITMAP_FORMAT_RGB_565);
    let mut buf: Vec<u8> = vec![0; 8];
    p.fill_plasma(&inf, &mut buf, -987654321);
    assert_eq!(buf.as_slice(), &[230, 207, 228, 223, 226, 239, 224, 255]);
}

#[test]
fn entry_point_renders_and_counts_a_frame() {
    let p = Plasma::new();
    let mut stats = Stats::new();
    let inf = info(4, 2, 8, ANDROID_BITMAP_FORMAT_RGB_565);
    let mut buf: Vec<u8> = vec![0; 16];
    let r = render_frame(&p, &mut stats, &inf, &mut buf, 0);
    assert!(r.is_ok());
    assert_eq!(buf.as_slice(), &GOLDEN_4X2_T0);
    assert_eq!(stats.num_samples(), 1);
}

#[test]
fn unsupported_format_is_rejected() {
    let p = Plasma::new();
    let mut stats = Stats::new();
    let inf = info(4, 2, 8, ANDROID_BITMAP_FORMAT_A_8);
    let mut buf: Vec<u8> = vec![0x11; 16];
    let r = render_frame(&p, &mut stats, &inf, &mut buf, 0);
    assert_eq!(r, Err(RenderError::UnsupportedFormat));
    // the call is a no-op: the caller's bytes stay, no frame is counted
    assert_eq!(buf, vec![0x11; 16]);
    assert_eq!(stats.num_samples(), 0);
}

#[test]
fn short_buffer_is_rejected() {
    let p = Plasma::new();
    let mut stats = Stats::new();
    let inf = info(4, 2, 8, ANDROID_BITMAP_FORMAT_RGB_565);
    let mut buf: Vec<u8> = vec![0x22; 15];
    let r = render_frame(&p, &mut stats, &inf, &mut buf, 0);
    assert_eq!(r, Err(RenderError::BufferTooSmall));
    assert_eq!(buf, vec![0x22; 15]);
    assert_eq!(stats.num_samples(), 0);
}

#[test]
fn narrow_stride_is_rejected() {
    let p = Plasma::new();
    let mut stats = Stats::new();
    let inf = info(4, 2, 6, ANDROID_BITMAP_FORMAT_RGB_565);
    let mut buf: Vec<u8> = vec![0x33; 16];
    let r = render_frame(&p, &mut stats, &inf, &mut buf, 0);
    assert_eq!(r, Err(RenderError::BufferTooSmall));
    assert_eq!(buf, vec![0x33; 16]);
}

#[test]
fn zero_width_frame_renders_nothing_but_counts() {
    let p = Plasma::new();
    let mut stats = Stats::new();
    let inf = info(0, 2, 8, ANDROID_BITMAP_FORMAT_RGB_565);
    let mut buf: Vec<u8> = vec![0x44; 16];
    let r = render_frame(&p, &mut stats, &inf, &mut buf, 0);
    assert!(r.is_ok());
    assert_eq!(buf, vec![0x44; 16]);
    assert_eq!(stats.num_samples(), 1);
}
