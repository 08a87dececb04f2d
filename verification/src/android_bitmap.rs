use vstd::prelude::*;

verus! {

/// Pixel-format codes as the host graphics surface reports them.
pub type AndroidBitmapFormat = i32;

pub const ANDROID_BITMAP_FORMAT_NONE: AndroidBitmapFormat = 0;

pub const ANDROID_BITMAP_FORMAT_RGBA_8888: AndroidBitmapFormat = 1;

/// The only format the renderer accepts: 16-bit packed 5-6-5 red/green/blue.
pub const ANDROID_BITMAP_FORMAT_RGB_565: AndroidBitmapFormat = 4;

pub const ANDROID_BITMAP_FORMAT_RGBA_4444: AndroidBitmapFormat = 7;

pub const ANDROID_BITMAP_FORMAT_A_8: AndroidBitmapFormat = 8;

pub const ANDROID_BITMAP_FORMAT_RGBA_F16: AndroidBitmapFormat = 9;

/// Describes a caller-owned pixel buffer: dimensions in pixels, the byte
/// distance between consecutive rows (which may exceed `width * 2` when the
/// buffer carries row padding), and the pixel format.
pub struct AndroidBitmapInfo {
    /// The bitmap width in pixels.
    pub width: u32,
    /// The bitmap height in pixels.
    pub height: u32,
    /// The number of bytes per row.
    pub stride: u32,
    /// The bitmap pixel format.
    pub format: AndroidBitmapFormat,
    /// Bitfield with further information about the bitmap; unused here.
    pub flags: u32,
}

impl Default for AndroidBitmapInfo {
    fn default() -> (r: AndroidBitmapInfo)
        ensures
            r.width == 0,
            r.height == 0,
            r.stride == 0,
            r.format == 0,
            r.flags == 0,
    {
        AndroidBitmapInfo { width: 0, height: 0, stride: 0, format: 0, flags: 0 }
    }
}

} // verus!
